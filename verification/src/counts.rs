//! Occurrence counts of text keys.

use vstd::prelude::*;
use crate::text::str_eq;
use crate::seq_facts::{lemma_filter_take_step, lemma_filter_take_zero, lemma_take_full};

verus! {

/// Number of occurrences of `k` in `keys`.
pub open spec fn occurrences(keys: Seq<Seq<char>>, k: Seq<char>) -> nat {
    keys.filter(is_key(k)).len()
}

/// The predicate "equals `k`".
pub open spec fn is_key(k: Seq<char>) -> spec_fn(Seq<char>) -> bool {
    |x: Seq<char>| x == k
}

/// Counts per key, for the keys that occur, in order of first occurrence.
#[derive(Debug)]
pub struct CountMap {
    /// The (key, count) pairs.
    pub pairs: Vec<(String, usize)>,
}

/// Whether `pairs` are exactly the occurrence counts of `keys`.
pub open spec fn counts_of(pairs: Seq<(String, usize)>, keys: Seq<Seq<char>>) -> bool {
    &&& forall|i: int, j: int| 0 <= i < j < pairs.len() ==> pairs[i].0@ != pairs[j].0@
    &&& forall|i: int| 0 <= i < pairs.len() ==> #[trigger] pairs[i].1 == occurrences(keys, pairs[i].0@)
        && pairs[i].1 > 0
    &&& forall|m: int| 0 <= m < keys.len() ==> key_present(pairs, #[trigger] keys[m])
}

/// Whether some pair has key `k`.
pub open spec fn key_present(pairs: Seq<(String, usize)>, k: Seq<char>) -> bool {
    exists|i: int| 0 <= i < pairs.len() && #[trigger] pairs[i].0@ == k
}

proof fn lemma_occurrences_step(keys: Seq<Seq<char>>, i: int, k: Seq<char>)
    requires
        0 <= i < keys.len(),
    ensures
        occurrences(keys.take(i + 1), k) == occurrences(keys.take(i), k) + if keys[i] == k { 1nat } else { 0nat },
{
    lemma_filter_take_step(keys, is_key(k), i);
}

impl CountMap {
    /// The count of `key`, if it occurs.
    pub fn get(&self, key: &str) -> (r: Option<&usize>)
        ensures
            match r {
                Some(n) => exists|i: int| 0 <= i < self.pairs@.len() && self.pairs@[i].0@ == key@ && self.pairs@[i].1 == *n,
                None => forall|i: int| 0 <= i < self.pairs@.len() ==> self.pairs@[i].0@ != key@,
            },
    {
        let mut i: usize = 0;
        while i < self.pairs.len()
            invariant
                i <= self.pairs@.len(),
                forall|j: int| 0 <= j < i ==> self.pairs@[j].0@ != key@,
            decreases self.pairs@.len() - i,
        {
            if str_eq(self.pairs[i].0.as_str(), key) {
                return Some(&self.pairs[i].1);
            }
            i = i + 1;
        }
        None
    }

    /// Number of distinct keys.
    pub fn len(&self) -> (n: usize)
        ensures
            n == self.pairs@.len(),
    {
        self.pairs.len()
    }

    /// Count the occurrences of each key.
    pub fn count(keys: &Vec<String>) -> (m: CountMap)
        ensures
            counts_of(m.pairs@, keys@.map_values(|s: String| s@)),
    {
        let ghost ks = keys@.map_values(|s: String| s@);
        let mut pairs: Vec<(String, usize)> = Vec::new();
        let mut i: usize = 0;
        while i < keys.len()
            invariant
                i <= keys@.len(),
                ks == keys@.map_values(|s: String| s@),
                counts_of(pairs@, ks.take(i as int)),
                forall|j: int| 0 <= j < pairs@.len() ==> pairs@[j].1 <= i,
            decreases keys@.len() - i,
        {
            let ghost prev = pairs@;
            let ghost k = ks[i as int];
            assert(keys@[i as int]@ == k);
            proof {
                assert forall|kk: Seq<char>| true implies occurrences(ks.take(i + 1), kk) == occurrences(ks.take(i as int), kk)
                    + if ks[i as int] == kk { 1nat } else { 0nat } by {
                    lemma_occurrences_step(ks, i as int, kk);
                }
            }
            let mut j: usize = 0;
            while j < pairs.len() && !str_eq(pairs[j].0.as_str(), keys[i].as_str())
                invariant
                    j <= pairs@.len(),
                    pairs@ == prev,
                    forall|q: int| 0 <= q < j ==> pairs@[q].0@ != k,
                    keys@[i as int]@ == k,
                    i < keys@.len(),
                decreases pairs@.len() - j,
            {
                j = j + 1;
            }
            if j < pairs.len() {
                assert(pairs@[j as int].0@ == k);
                let name = pairs[j].0.clone();
                let c = pairs[j].1;
                assert(name@ == k);
                assert(c <= i);
                pairs.set(j, (name, c + 1));
                proof {
                    assert forall|q: int| 0 <= q < pairs@.len() implies #[trigger] pairs@[q].1 == occurrences(
                        ks.take(i + 1),
                        pairs@[q].0@,
                    ) && pairs@[q].1 > 0 by {
                        assert(occurrences(ks.take(i + 1), pairs@[q].0@) == occurrences(ks.take(i as int), pairs@[q].0@)
                            + if ks[i as int] == pairs@[q].0@ { 1nat } else { 0nat });
                        if q != j {
                            assert(pairs@[q] == prev[q]);
                        }
                    }
                    assert forall|m: int| 0 <= m < ks.take(i + 1).len() implies key_present(pairs@, #[trigger] ks.take(i + 1)[m]) by {
                        if m < i {
                            assert(ks.take(i + 1)[m] == ks.take(i as int)[m]);
                            assert(key_present(prev, ks.take(i as int)[m]));
                            let q = choose|q: int| 0 <= q < prev.len() && #[trigger] prev[q].0@ == ks.take(i as int)[m];
                            assert(pairs@[q].0@ == prev[q].0@);
                        } else {
                            assert(m == i);
                            assert(ks.take(i + 1)[m] == k);
                            assert(pairs@[j as int].0@ == k);
                            assert(pairs@[j as int].0@ == ks.take(i + 1)[m]);
                        }
                    }
                    assert forall|a: int, b: int| 0 <= a < b < pairs@.len() implies pairs@[a].0@ != pairs@[b].0@ by {
                        assert(pairs@[a].0@ == prev[a].0@ && pairs@[b].0@ == prev[b].0@);
                    }
                    assert(forall|a: int, b: int| 0 <= a < b < pairs@.len() ==> pairs@[a].0@ != pairs@[b].0@);
                    assert(forall|q: int| 0 <= q < pairs@.len() ==> #[trigger] pairs@[q].1 == occurrences(ks.take(i + 1), pairs@[q].0@)
                        && pairs@[q].1 > 0);
                }
            } else {
                pairs.push((keys[i].clone(), 1));
                proof {
                    assert(occurrences(ks.take(i as int), k) == 0) by {
                        if occurrences(ks.take(i as int), k) > 0 {
                            let t = ks.take(i as int).filter(is_key(k));
                            ks.take(i as int).lemma_filter_pred(is_key(k), 0);
                            assert(t[0] == k);
                            assert(t.contains(k));
                            ks.take(i as int).lemma_filter_contains_rev(is_key(k), k);
                            let m = choose|m: int| 0 <= m < ks.take(i as int).len() && ks.take(i as int)[m] == k;
                            assert(key_present(prev, ks.take(i as int)[m]));
                            let q = choose|q: int| 0 <= q < prev.len() && #[trigger] prev[q].0@ == ks.take(i as int)[m];
                            assert(prev[q].0@ == k);
                        }
                    }
                    assert forall|q: int| 0 <= q < pairs@.len() implies #[trigger] pairs@[q].1 == occurrences(
                        ks.take(i + 1),
                        pairs@[q].0@,
                    ) && pairs@[q].1 > 0 by {
                        assert(occurrences(ks.take(i + 1), pairs@[q].0@) == occurrences(ks.take(i as int), pairs@[q].0@)
                            + if ks[i as int] == pairs@[q].0@ { 1nat } else { 0nat });
                        if q < prev.len() {
                            assert(pairs@[q] == prev[q]);
                        }
                    }
                    assert forall|m: int| 0 <= m < ks.take(i + 1).len() implies key_present(pairs@, #[trigger] ks.take(i + 1)[m]) by {
                        if m < i {
                            assert(ks.take(i + 1)[m] == ks.take(i as int)[m]);
                            assert(key_present(prev, ks.take(i as int)[m]));
                            let q = choose|q: int| 0 <= q < prev.len() && #[trigger] prev[q].0@ == ks.take(i as int)[m];
                            assert(pairs@[q].0@ == prev[q].0@);
                        } else {
                            assert(pairs@[prev.len() as int].0@ == k);
                        }
                    }
                    assert forall|a: int, b: int| 0 <= a < b < pairs@.len() implies pairs@[a].0@ != pairs@[b].0@ by {
                        if b < prev.len() {
                            assert(pairs@[a].0@ == prev[a].0@ && pairs@[b].0@ == prev[b].0@);
                        } else {
                            assert(pairs@[a].0@ == prev[a].0@);
                        }
                    }
                    assert(counts_of(pairs@, ks.take(i + 1)));
                }
            }
            i = i + 1;
        }
        proof {
            lemma_take_full(ks);
        }
        CountMap { pairs }
    }
}

} // verus!
