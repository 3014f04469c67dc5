//! Searching and trimming text held as characters.

use vstd::prelude::*;
use crate::text::{is_white_space, push_char, white_space};

verus! {

/// Whether `pat` occurs in `hay` at position `i`.
pub open spec fn occurs_at(hay: Seq<char>, pat: Seq<char>, i: int) -> bool {
    0 <= i && i + pat.len() <= hay.len() && hay.subrange(i, i + pat.len()) == pat
}

/// Whether `i` is the first position at or after `from` where `pat`
/// occurs in `hay`.
pub open spec fn first_from(hay: Seq<char>, pat: Seq<char>, from: int, i: int) -> bool {
    from <= i && occurs_at(hay, pat, i) && forall|j: int| from <= j < i ==> !occurs_at(hay, pat, j)
}

/// The first position at or after `from` where `pat` occurs in `hay`.
pub open spec fn find_from(hay: Seq<char>, pat: Seq<char>, from: int) -> Option<int> {
    if exists|i: int| #[trigger] first_from(hay, pat, from, i) {
        Some(choose|i: int| #[trigger] first_from(hay, pat, from, i))
    } else {
        None
    }
}

/// A found position is where the pattern occurs, at or after `from`.
pub proof fn lemma_find_from(hay: Seq<char>, pat: Seq<char>, from: int)
    ensures
        match find_from(hay, pat, from) {
            Some(i) => first_from(hay, pat, from, i) && from <= i && i + pat.len() <= hay.len(),
            None => forall|j: int| from <= j ==> !#[trigger] occurs_at(hay, pat, j),
        },
{
    if find_from(hay, pat, from) is None {
        assert forall|j: int| from <= j implies !#[trigger] occurs_at(hay, pat, j) by {
            if occurs_at(hay, pat, j) {
                lemma_first_exists(hay, pat, from, j);
            }
        }
    }
}

proof fn lemma_first_exists(hay: Seq<char>, pat: Seq<char>, from: int, j: int)
    requires
        from <= j,
        occurs_at(hay, pat, j),
    ensures
        exists|i: int| #[trigger] first_from(hay, pat, from, i),
    decreases j - from,
{
    if forall|k: int| from <= k < j ==> !occurs_at(hay, pat, k) {
        assert(first_from(hay, pat, from, j));
    } else {
        let k = choose|k: int| from <= k < j && occurs_at(hay, pat, k);
        lemma_first_exists(hay, pat, from, k);
    }
}

proof fn lemma_first_unique(hay: Seq<char>, pat: Seq<char>, from: int, i: int)
    requires
        first_from(hay, pat, from, i),
    ensures
        find_from(hay, pat, from) == Some(i),
{
    let c = choose|k: int| #[trigger] first_from(hay, pat, from, k);
    assert(first_from(hay, pat, from, c));
    if c < i {
        assert(!occurs_at(hay, pat, c));
    } else if c > i {
        assert(!occurs_at(hay, pat, i));
    }
}

fn matches_at(hay: &Vec<char>, pat: &Vec<char>, i: usize) -> (b: bool)
    requires
        i + pat@.len() <= hay@.len(),
    ensures
        b == occurs_at(hay@, pat@, i as int),
{
    let hn = hay.len();
    let mut k: usize = 0;
    while k < pat.len()
        invariant
            i + pat@.len() <= hay@.len(),
            hn == hay@.len(),
            k <= pat@.len(),
            forall|m: int| 0 <= m < k ==> hay@[i + m] == pat@[m],
        decreases pat@.len() - k,
    {
        if hay[i + k] != pat[k] {
            assert(hay@.subrange(i as int, i + pat@.len())[k as int] != pat@[k as int]);
            return false;
        }
        k = k + 1;
    }
    assert(hay@.subrange(i as int, i + pat@.len()) =~= pat@);
    true
}

/// The first position at or after `from` where `pat` occurs in `hay`.
pub fn find_chars(hay: &Vec<char>, pat: &Vec<char>, from: usize) -> (r: Option<usize>)
    ensures
        match r {
            Some(i) => find_from(hay@, pat@, from as int) == Some(i as int),
            None => find_from(hay@, pat@, from as int) is None,
        },
{
    if pat.len() > hay.len() {
        proof {
            lemma_find_from(hay@, pat@, from as int);
        }
        return None;
    }
    let last = hay.len() - pat.len();
    let mut i = from;
    while i <= last
        invariant
            last == hay@.len() - pat@.len(),
            from <= i,
            forall|j: int| from <= j < i ==> !occurs_at(hay@, pat@, j),
        decreases last + 1 - i,
    {
        if matches_at(hay, pat, i) {
            proof {
                lemma_first_unique(hay@, pat@, from as int, i as int);
            }
            return Some(i);
        }
        if i == last {
            proof {
                lemma_find_from(hay@, pat@, from as int);
                if let Some(k) = find_from(hay@, pat@, from as int) {
                    assert(k <= i);
                }
            }
            return None;
        }
        i = i + 1;
    }
    proof {
        lemma_find_from(hay@, pat@, from as int);
        if let Some(k) = find_from(hay@, pat@, from as int) {
            assert(k < i);
        }
    }
    None
}

/// The characters of a string.
pub fn chars_of(s: &str) -> (v: Vec<char>)
    ensures
        v@ == s@,
{
    let n = s.unicode_len();
    let mut v: Vec<char> = Vec::new();
    let mut i: usize = 0;
    while i < n
        invariant
            n == s@.len(),
            i <= n,
            v@ == s@.take(i as int),
        decreases n - i,
    {
        v.push(s.get_char(i));
        assert(v@ =~= s@.take(i + 1));
        i = i + 1;
    }
    assert(s@.take(n as int) =~= s@);
    v
}

/// The characters `start..end` as a string.
pub fn string_of(v: &Vec<char>, start: usize, end: usize) -> (s: String)
    requires
        start <= end <= v@.len(),
    ensures
        s@ == v@.subrange(start as int, end as int),
{
    let mut s = String::new();
    let mut i = start;
    while i < end
        invariant
            start <= i <= end <= v@.len(),
            s@ == v@.subrange(start as int, i as int),
        decreases end - i,
    {
        push_char(&mut s, v[i]);
        assert(s@ =~= v@.subrange(start as int, i + 1));
        i = i + 1;
    }
    s
}

/// `s` without leading white space.
pub open spec fn trim_start(s: Seq<char>) -> Seq<char>
    decreases s.len(),
{
    if s.len() > 0 && is_white_space(s[0]) {
        trim_start(s.drop_first())
    } else {
        s
    }
}

/// `s` without trailing white space.
pub open spec fn trim_end(s: Seq<char>) -> Seq<char>
    decreases s.len(),
{
    if s.len() > 0 && is_white_space(s.last()) {
        trim_end(s.drop_last())
    } else {
        s
    }
}

/// `s` without leading and trailing white space (`str::trim`).
pub open spec fn trim(s: Seq<char>) -> Seq<char> {
    trim_end(trim_start(s))
}

proof fn lemma_trim_start(s: Seq<char>, a: int)
    requires
        0 <= a <= s.len(),
        forall|j: int| 0 <= j < a ==> is_white_space(#[trigger] s[j]),
        a == s.len() || !is_white_space(s[a]),
    ensures
        trim_start(s) == s.skip(a),
    decreases a,
{
    if a > 0 {
        let t = s.drop_first();
        assert forall|j: int| 0 <= j < a - 1 implies is_white_space(#[trigger] t[j]) by {
            assert(t[j] == s[j + 1]);
        }
        if a < s.len() {
            assert(t[a - 1] == s[a]);
        }
        lemma_trim_start(t, a - 1);
        assert(t.skip(a - 1) =~= s.skip(a));
    } else {
        assert(s.skip(0) =~= s);
    }
}

proof fn lemma_trim_end(s: Seq<char>, b: int)
    requires
        0 <= b <= s.len(),
        forall|j: int| b <= j < s.len() ==> is_white_space(#[trigger] s[j]),
        b == 0 || !is_white_space(s[b - 1]),
    ensures
        trim_end(s) == s.take(b),
    decreases s.len() - b,
{
    if b < s.len() {
        let t = s.drop_last();
        assert forall|j: int| b <= j < t.len() implies is_white_space(#[trigger] t[j]) by {
            assert(t[j] == s[j]);
        }
        if b > 0 {
            assert(t[b - 1] == s[b - 1]);
        }
        assert(is_white_space(s[s.len() - 1]));
        lemma_trim_end(t, b);
        assert(t.take(b) =~= s.take(b));
    } else {
        assert(s.take(b) =~= s);
    }
}

/// The characters `start..end` without leading and trailing white space,
/// as a string.
pub fn trimmed_string(v: &Vec<char>, start: usize, end: usize) -> (s: String)
    requires
        start <= end <= v@.len(),
    ensures
        s@ == trim(v@.subrange(start as int, end as int)),
{
    let ghost sub = v@.subrange(start as int, end as int);
    let mut a = start;
    while a < end && white_space(v[a])
        invariant
            start <= a <= end <= v@.len(),
            forall|j: int| start <= j < a ==> is_white_space(#[trigger] v@[j]),
        decreases end - a,
    {
        a = a + 1;
    }
    proof {
        assert forall|j: int| 0 <= j < a - start implies is_white_space(#[trigger] sub[j]) by {
            assert(sub[j] == v@[start + j]);
        }
        if a < end {
            assert(sub[a - start] == v@[a as int]);
        }
        lemma_trim_start(sub, a - start);
    }
    let mut b = end;
    while b > a && white_space(v[b - 1])
        invariant
            start <= a <= b <= end <= v@.len(),
            forall|j: int| b <= j < end ==> is_white_space(#[trigger] v@[j]),
        decreases b - a,
    {
        b = b - 1;
    }
    proof {
        let t = sub.skip(a - start);
        assert(t =~= v@.subrange(a as int, end as int));
        assert forall|j: int| b - a <= j < t.len() implies is_white_space(#[trigger] t[j]) by {
            assert(t[j] == v@[a + j]);
        }
        if b > a {
            assert(t[b - a - 1] == v@[b - 1]);
        }
        lemma_trim_end(t, b - a);
        assert(t.take(b - a) =~= v@.subrange(a as int, b as int));
    }
    string_of(v, a, b)
}

/// The pieces of `s` between the occurrences of `c` (`str::split`).
pub open spec fn split_on(s: Seq<char>, c: char) -> Seq<Seq<char>>
    decreases s.len(),
{
    if s.len() == 0 {
        seq![Seq::empty()]
    } else {
        let rest = split_on(s.drop_last(), c);
        if s.last() == c {
            rest.push(Seq::empty())
        } else {
            rest.update(rest.len() - 1, rest.last().push(s.last()))
        }
    }
}

proof fn lemma_split_nonempty(s: Seq<char>, c: char)
    ensures
        split_on(s, c).len() >= 1,
    decreases s.len(),
{
    if s.len() > 0 {
        lemma_split_nonempty(s.drop_last(), c);
    }
}

/// The pieces of `query` between the occurrences of `c`.
pub fn split_chars(query: &Vec<char>, c: char) -> (pieces: Vec<Vec<char>>)
    ensures
        pieces@.len() == split_on(query@, c).len(),
        forall|i: int| 0 <= i < pieces@.len() ==> #[trigger] pieces@[i]@ == split_on(query@, c)[i],
{
    let mut pieces: Vec<Vec<char>> = Vec::new();
    pieces.push(Vec::new());
    let mut i: usize = 0;
    while i < query.len()
        invariant
            i <= query@.len(),
            pieces@.len() == split_on(query@.take(i as int), c).len(),
            forall|j: int| 0 <= j < pieces@.len() ==> #[trigger] pieces@[j]@ == split_on(query@.take(i as int), c)[j],
        decreases query@.len() - i,
    {
        let ghost prev = query@.take(i as int);
        assert(query@.take(i + 1).drop_last() =~= prev);
        assert(query@.take(i + 1).last() == query@[i as int]);
        proof {
            lemma_split_nonempty(prev, c);
        }
        let ch = query[i];
        let ghost before = pieces@;
        if ch == c {
            pieces.push(Vec::new());
            assert forall|j: int| 0 <= j < pieces@.len() implies #[trigger] pieces@[j]@ == split_on(
                query@.take(i + 1),
                c,
            )[j] by {
                if j < pieces@.len() - 1 {
                    assert(pieces@[j] == before[j]);
                }
            }
        } else {
            let last = pieces.len() - 1;
            let mut p = pieces.pop().unwrap();
            p.push(ch);
            pieces.push(p);
            assert forall|j: int| 0 <= j < pieces@.len() implies #[trigger] pieces@[j]@ == split_on(
                query@.take(i + 1),
                c,
            )[j] by {
                if j < last {
                    assert(pieces@[j] == before[j]);
                }
            }
        }
        i = i + 1;
    }
    assert(query@.take(query@.len() as int) =~= query@);
    pieces
}

} // verus!
