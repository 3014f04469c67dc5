//! A small string-to-string map that keeps insertion order.

use vstd::prelude::*;
use crate::text::str_eq;

verus! {

/// The value stored under `key` in a sequence of pairs: that of the first
/// pair whose key is `key`.
pub open spec fn lookup(pairs: Seq<(Seq<char>, Seq<char>)>, key: Seq<char>) -> Option<Seq<char>>
    decreases pairs.len(),
{
    if pairs.len() == 0 {
        None
    } else if pairs[0].0 == key {
        Some(pairs[0].1)
    } else {
        lookup(pairs.drop_first(), key)
    }
}

/// Whether no key occurs twice.
pub open spec fn keys_unique(pairs: Seq<(Seq<char>, Seq<char>)>) -> bool {
    forall|i: int, j: int| 0 <= i < j < pairs.len() ==> pairs[i].0 != pairs[j].0
}

/// Map of text keys to text values; a key occurs at most once.
#[derive(Clone, Debug)]
pub struct StringMap {
    pairs: Vec<(String, String)>,
}

impl View for StringMap {
    type V = Seq<(Seq<char>, Seq<char>)>;

    closed spec fn view(&self) -> Seq<(Seq<char>, Seq<char>)> {
        self.pairs@.map_values(|p: (String, String)| (p.0@, p.1@))
    }
}

proof fn lemma_lookup_index(pairs: Seq<(Seq<char>, Seq<char>)>, key: Seq<char>, i: int)
    requires
        0 <= i < pairs.len(),
        pairs[i].0 == key,
        forall|j: int| 0 <= j < i ==> pairs[j].0 != key,
    ensures
        lookup(pairs, key) == Some(pairs[i].1),
    decreases i,
{
    if i > 0 {
        lemma_lookup_index(pairs.drop_first(), key, i - 1);
    }
}

proof fn lemma_lookup_absent(pairs: Seq<(Seq<char>, Seq<char>)>, key: Seq<char>)
    requires
        forall|j: int| 0 <= j < pairs.len() ==> pairs[j].0 != key,
    ensures
        lookup(pairs, key) == None::<Seq<char>>,
    decreases pairs.len(),
{
    if pairs.len() > 0 {
        lemma_lookup_absent(pairs.drop_first(), key);
    }
}

impl StringMap {
    /// Well-formedness: no key occurs twice.
    pub open spec fn wf(&self) -> bool {
        keys_unique(self@)
    }

    /// An empty map.
    pub fn new() -> (m: StringMap)
        ensures
            m@ == Seq::<(Seq<char>, Seq<char>)>::empty(),
            m.wf(),
    {
        StringMap { pairs: Vec::new() }
    }

    /// An independent copy of the map.
    pub fn duplicate(&self) -> (m: StringMap)
        ensures
            m@ == self@,
            m.wf() == self.wf(),
    {
        let mut pairs: Vec<(String, String)> = Vec::new();
        let mut i: usize = 0;
        while i < self.pairs.len()
            invariant
                i <= self.pairs@.len(),
                pairs@.len() == i,
                forall|j: int| 0 <= j < i ==> pairs@[j].0@ == self.pairs@[j].0@ && pairs@[j].1@
                    == self.pairs@[j].1@,
            decreases self.pairs@.len() - i,
        {
            let k = self.pairs[i].0.clone();
            let v = self.pairs[i].1.clone();
            pairs.push((k, v));
            i = i + 1;
        }
        let m = StringMap { pairs };
        assert(m@ =~= self@);
        m
    }

    /// Number of keys.
    pub fn len(&self) -> (n: usize)
        ensures
            n == self@.len(),
    {
        self.pairs.len()
    }

    /// Whether the map holds no key.
    pub fn is_empty(&self) -> (b: bool)
        ensures
            b == (self@.len() == 0),
    {
        self.pairs.len() == 0
    }

    fn position(&self, key: &str) -> (r: Option<usize>)
        ensures
            match r {
                Some(i) => i < self@.len() && self@[i as int].0 == key@ && forall|j: int|
                    0 <= j < i ==> self@[j].0 != key@,
                None => forall|j: int| 0 <= j < self@.len() ==> self@[j].0 != key@,
            },
    {
        let mut i: usize = 0;
        while i < self.pairs.len()
            invariant
                i <= self.pairs@.len(),
                forall|j: int| 0 <= j < i ==> self@[j].0 != key@,
            decreases self.pairs@.len() - i,
        {
            if str_eq(self.pairs[i].0.as_str(), key) {
                return Some(i);
            }
            i = i + 1;
        }
        None
    }

    /// The value stored under `key`.
    pub fn get(&self, key: &str) -> (r: Option<&String>)
        ensures
            match r {
                Some(v) => lookup(self@, key@) == Some(v@),
                None => lookup(self@, key@) == None::<Seq<char>>,
            },
    {
        match self.position(key) {
            Some(i) => {
                proof {
                    lemma_lookup_index(self@, key@, i as int);
                }
                Some(&self.pairs[i].1)
            },
            None => {
                proof {
                    lemma_lookup_absent(self@, key@);
                }
                None
            },
        }
    }

    /// Store `value` under `key`: an existing key keeps its place and takes
    /// the new value; a new key is appended.
    pub fn insert(&mut self, key: String, value: String)
        requires
            old(self).wf(),
        ensures
            final(self).wf(),
            (exists|i: int| 0 <= i < old(self)@.len() && old(self)@[i].0 == key@) ==> final(self)@
                == old(self)@.update(
                choose|i: int| 0 <= i < old(self)@.len() && old(self)@[i].0 == key@,
                (key@, value@),
            ),
            (forall|i: int| 0 <= i < old(self)@.len() ==> old(self)@[i].0 != key@) ==> final(self)@
                == old(self)@.push((key@, value@)),
            lookup(final(self)@, key@) == Some(value@),
    {
        match self.position(key.as_str()) {
            Some(i) => {
                let ghost k = key@;
                let ghost v = value@;
                let ghost prev = self@;
                proof {
                    assert(prev[i as int].0 == k);
                    let c = choose|j: int| 0 <= j < prev.len() && prev[j].0 == k;
                    assert(c == i as int);
                }
                self.pairs.set(i, (key, value));
                assert(self@ =~= prev.update(i as int, (k, v)));
                proof {
                    lemma_lookup_index(self@, k, i as int);
                }
            },
            None => {
                let ghost k = key@;
                let ghost v = value@;
                let ghost prev = self@;
                self.pairs.push((key, value));
                assert(self@ =~= prev.push((k, v)));
                proof {
                    lemma_lookup_index(self@, k, prev.len() as int);
                }
            },
        }
    }
}

} // verus!
