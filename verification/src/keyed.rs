//! Records kept in a sequence and found by a text key: the map view of
//! such a sequence and how it changes when the sequence does.

use vstd::prelude::*;

verus! {

/// The map from key to record of a sequence of records (a later record
/// with the same key wins; with distinct keys there is no such case).
pub open spec fn keyed_map<T>(s: Seq<T>, key: spec_fn(T) -> Seq<char>) -> Map<Seq<char>, T>
    decreases s.len(),
{
    if s.len() == 0 {
        Map::empty()
    } else {
        keyed_map(s.drop_last(), key).insert(key(s.last()), s.last())
    }
}

/// Whether no two records share a key.
pub open spec fn keys_distinct<T>(s: Seq<T>, key: spec_fn(T) -> Seq<char>) -> bool {
    forall|i: int, j: int| 0 <= i < j < s.len() ==> key(s[i]) != key(s[j])
}

/// The map holds exactly the keys of the records, with their records.
pub proof fn lemma_keyed_map_contents<T>(s: Seq<T>, key: spec_fn(T) -> Seq<char>)
    requires
        keys_distinct(s, key),
    ensures
        forall|k: Seq<char>| #[trigger] keyed_map(s, key).contains_key(k) <==> exists|i: int|
            0 <= i < s.len() && key(s[i]) == k,
        forall|i: int| 0 <= i < s.len() ==> #[trigger] keyed_map(s, key)[key(s[i])] == s[i],
        keyed_map(s, key).dom().finite(),
        keyed_map(s, key).len() == s.len(),
    decreases s.len(),
{
    if s.len() > 0 {
        let t = s.drop_last();
        assert(keys_distinct(t, key));
        lemma_keyed_map_contents(t, key);
        let m = keyed_map(t, key);
        let r = s.last();
        assert forall|k: Seq<char>| #[trigger] keyed_map(s, key).contains_key(k) <==> exists|i: int|
            0 <= i < s.len() && key(s[i]) == k by {
            if keyed_map(s, key).contains_key(k) {
                if k == key(r) {
                    assert(key(s[s.len() - 1]) == k);
                } else {
                    let i = choose|i: int| 0 <= i < t.len() && key(t[i]) == k;
                    assert(key(s[i]) == k);
                }
            }
            if exists|i: int| 0 <= i < s.len() && key(s[i]) == k {
                let i = choose|i: int| 0 <= i < s.len() && key(s[i]) == k;
                if i < s.len() - 1 {
                    assert(key(t[i]) == k);
                }
            }
        }
        assert forall|i: int| 0 <= i < s.len() implies #[trigger] keyed_map(s, key)[key(s[i])] == s[i] by {
            if i < s.len() - 1 {
                assert(key(s[i]) != key(r));
                assert(t[i] == s[i]);
            }
        }
        assert(!m.contains_key(key(r))) by {
            if m.contains_key(key(r)) {
                let i = choose|i: int| 0 <= i < t.len() && key(t[i]) == key(r);
                assert(key(s[i]) == key(s[s.len() - 1]));
            }
        }
    } else {
        assert(keyed_map(s, key) =~= Map::<Seq<char>, T>::empty());
    }
}

/// Replacing a record by one with the same key replaces it in the map.
pub proof fn lemma_keyed_map_update<T>(s: Seq<T>, key: spec_fn(T) -> Seq<char>, i: int, r: T)
    requires
        keys_distinct(s, key),
        0 <= i < s.len(),
        key(r) == key(s[i]),
    ensures
        keys_distinct(s.update(i, r), key),
        keyed_map(s.update(i, r), key) == keyed_map(s, key).insert(key(r), r),
{
    let u = s.update(i, r);
    assert(keys_distinct(u, key)) by {
        assert forall|a: int, b: int| 0 <= a < b < u.len() implies key(u[a]) != key(u[b]) by {
            assert(key(u[a]) == key(s[a]));
            assert(key(u[b]) == key(s[b]));
        }
    }
    lemma_keyed_map_contents(s, key);
    lemma_keyed_map_contents(u, key);
    let m1 = keyed_map(u, key);
    let m2 = keyed_map(s, key).insert(key(r), r);
    assert forall|k: Seq<char>| m1.contains_key(k) <==> m2.contains_key(k) by {
        if m1.contains_key(k) {
            let j = choose|j: int| 0 <= j < u.len() && key(u[j]) == k;
            assert(key(s[j]) == k);
        }
        if m2.contains_key(k) {
            if k == key(r) {
                assert(key(u[i]) == k);
            } else {
                let j = choose|j: int| 0 <= j < s.len() && key(s[j]) == k;
                assert(key(u[j]) == k);
            }
        }
    }
    assert forall|k: Seq<char>| m1.contains_key(k) implies m1[k] == m2[k] by {
        let j = choose|j: int| 0 <= j < u.len() && key(u[j]) == k;
        assert(m1[key(u[j])] == u[j]);
        if j != i {
            assert(m2[key(s[j])] == s[j]);
        }
    }
    assert(m1 =~= m2);
}

/// Appending a record with a new key adds it to the map.
pub proof fn lemma_keyed_map_push<T>(s: Seq<T>, key: spec_fn(T) -> Seq<char>, r: T)
    requires
        keys_distinct(s, key),
        forall|i: int| 0 <= i < s.len() ==> key(s[i]) != key(r),
    ensures
        keys_distinct(s.push(r), key),
        keyed_map(s.push(r), key) == keyed_map(s, key).insert(key(r), r),
{
    assert(s.push(r).drop_last() =~= s);
    assert forall|a: int, b: int| 0 <= a < b < s.push(r).len() implies key(s.push(r)[a]) != key(
        s.push(r)[b],
    ) by {
        if b < s.len() {
            assert(s.push(r)[a] == s[a] && s.push(r)[b] == s[b]);
        } else {
            assert(s.push(r)[a] == s[a]);
        }
    }
}

/// Removing the record at `i` removes its key from the map.
pub proof fn lemma_keyed_map_remove<T>(s: Seq<T>, key: spec_fn(T) -> Seq<char>, i: int)
    requires
        keys_distinct(s, key),
        0 <= i < s.len(),
    ensures
        keys_distinct(s.remove(i), key),
        keyed_map(s.remove(i), key) == keyed_map(s, key).remove(key(s[i])),
{
    let u = s.remove(i);
    assert forall|a: int, b: int| 0 <= a < b < u.len() implies key(u[a]) != key(u[b]) by {
        let a2 = if a < i { a } else { a + 1 };
        let b2 = if b < i { b } else { b + 1 };
        assert(u[a] == s[a2] && u[b] == s[b2]);
    }
    lemma_keyed_map_contents(s, key);
    lemma_keyed_map_contents(u, key);
    let m1 = keyed_map(u, key);
    let m2 = keyed_map(s, key).remove(key(s[i]));
    assert forall|k: Seq<char>| m1.contains_key(k) <==> m2.contains_key(k) by {
        if m1.contains_key(k) {
            let j = choose|j: int| 0 <= j < u.len() && key(u[j]) == k;
            let j2 = if j < i { j } else { j + 1 };
            assert(u[j] == s[j2]);
            assert(key(s[j2]) == k);
        }
        if m2.contains_key(k) {
            let j = choose|j: int| 0 <= j < s.len() && key(s[j]) == k;
            assert(j != i);
            let j2 = if j < i { j } else { j - 1 };
            assert(u[j2] == s[j]);
        }
    }
    assert forall|k: Seq<char>| m1.contains_key(k) implies m1[k] == m2[k] by {
        let j = choose|j: int| 0 <= j < u.len() && key(u[j]) == k;
        let j2 = if j < i { j } else { j + 1 };
        assert(u[j] == s[j2]);
        assert(m1[key(u[j])] == u[j]);
        assert(m2[key(s[j2])] == s[j2]);
    }
    assert(m1 =~= m2);
}

} // verus!
