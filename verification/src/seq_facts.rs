//! Facts about sequences that the loops of this library rely on.

use vstd::prelude::*;

verus! {

/// Taking one more element extends the filtered prefix by that element
/// exactly when it satisfies the predicate.
pub proof fn lemma_filter_take_step<A>(s: Seq<A>, p: spec_fn(A) -> bool, i: int)
    requires
        0 <= i < s.len(),
    ensures
        s.take(i + 1).filter(p) == (if p(s[i]) {
            s.take(i).filter(p).push(s[i])
        } else {
            s.take(i).filter(p)
        }),
{
    reveal_with_fuel(Seq::filter, 1);
    assert(s.take(i + 1).drop_last() =~= s.take(i));
    assert(s.take(i + 1).last() == s[i]);
}

/// The filter of the empty prefix is empty.
pub proof fn lemma_filter_take_zero<A>(s: Seq<A>, p: spec_fn(A) -> bool)
    ensures
        s.take(0).filter(p) == Seq::<A>::empty(),
{
    reveal_with_fuel(Seq::filter, 1);
    assert(s.take(0) =~= Seq::<A>::empty());
}

/// The filter of a prefix is a prefix of the filter.
pub proof fn lemma_filter_prefix<A>(s: Seq<A>, p: spec_fn(A) -> bool, i: int)
    requires
        0 <= i <= s.len(),
    ensures
        s.take(i).filter(p).len() <= s.filter(p).len(),
        forall|j: int|
            0 <= j < s.take(i).filter(p).len() ==> #[trigger] s.take(i).filter(p)[j] == s.filter(p)[j],
    decreases s.len() - i,
{
    if i < s.len() {
        lemma_filter_prefix(s, p, i + 1);
        lemma_filter_take_step(s, p, i);
        assert forall|j: int| 0 <= j < s.take(i).filter(p).len() implies #[trigger] s.take(i).filter(p)[j]
            == s.filter(p)[j] by {
            assert(s.take(i).filter(p)[j] == s.take(i + 1).filter(p)[j]);
        }
    } else {
        lemma_take_full(s);
    }
}

/// Filtering by a predicate that every element satisfies changes nothing.
pub proof fn lemma_filter_all<A>(s: Seq<A>, p: spec_fn(A) -> bool)
    requires
        forall|i: int| 0 <= i < s.len() ==> p(#[trigger] s[i]),
    ensures
        s.filter(p) == s,
    decreases s.len(),
{
    reveal_with_fuel(Seq::filter, 1);
    if s.len() > 0 {
        let t = s.drop_last();
        assert forall|i: int| 0 <= i < t.len() implies p(#[trigger] t[i]) by {
            assert(t[i] == s[i]);
        }
        lemma_filter_all(t, p);
        assert(p(s[s.len() - 1]));
        assert(t.push(s.last()) =~= s);
    } else {
        assert(s.filter(p) =~= s);
    }
}

/// The whole sequence is its own longest prefix.
pub proof fn lemma_take_full<A>(s: Seq<A>)
    ensures
        s.take(s.len() as int) == s,
{
    assert(s.take(s.len() as int) =~= s);
}

} // verus!
