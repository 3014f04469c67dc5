//! A table of records under distinct text keys, kept in insertion order:
//! the map of a `HashMap` whose walk order is the order of insertion.

use vstd::prelude::*;
use crate::keyed::{keyed_map, keys_distinct, lemma_keyed_map_contents, lemma_keyed_map_push, lemma_keyed_map_remove, lemma_keyed_map_update};
use crate::text::str_eq;

verus! {

/// A record with a text key and a value model.
pub trait Record: Sized {
    /// The record as values.
    type Model;

    /// The record as values.
    spec fn model(&self) -> Self::Model;

    /// The key of a record's model.
    spec fn model_key(m: Self::Model) -> Seq<char>;

    /// The record's key.
    fn key(&self) -> (k: &str)
        ensures
            k@ == Self::model_key(self.model()),
    ;

    /// An independent copy.
    fn copy(&self) -> (r: Self)
        ensures
            r.model() == self.model(),
    ;
}

/// The key function of a record type.
pub open spec fn record_key<T: Record>() -> spec_fn(T::Model) -> Seq<char> {
    |m: T::Model| T::model_key(m)
}

/// The models of a list of records.
pub open spec fn models<T: Record>(v: Seq<T>) -> Seq<T::Model> {
    v.map_values(|r: T| r.model())
}

/// Records under distinct keys, in insertion order.
#[derive(Debug)]
pub struct Table<T> {
    rows: Vec<T>,
}

impl<T: Record> Table<T> {
    /// The records in insertion order.
    pub closed spec fn seq(&self) -> Seq<T::Model> {
        models(self.rows@)
    }

    /// The records by key.
    pub open spec fn map(&self) -> Map<Seq<char>, T::Model> {
        keyed_map(self.seq(), record_key::<T>())
    }

    /// Well-formedness: keys are distinct.
    pub closed spec fn wf(&self) -> bool {
        keys_distinct(self.seq(), record_key::<T>())
    }

    /// An empty table.
    pub fn new() -> (t: Table<T>)
        ensures
            t.wf(),
            t.seq() == Seq::<T::Model>::empty(),
            t.map() == Map::<Seq<char>, T::Model>::empty(),
    {
        let t = Table { rows: Vec::new() };
        assert(t.seq() =~= Seq::<T::Model>::empty());
        assert(t.map() =~= Map::<Seq<char>, T::Model>::empty());
        t
    }

    /// Each key occurs once; the map has one entry per record.
    pub proof fn lemma_map(&self)
        requires
            self.wf(),
        ensures
            forall|k: Seq<char>| #[trigger] self.map().contains_key(k) <==> exists|i: int|
                0 <= i < self.seq().len() && T::model_key(self.seq()[i]) == k,
            forall|i: int| 0 <= i < self.seq().len() ==> #[trigger] self.map()[T::model_key(self.seq()[i])]
                == self.seq()[i],
            self.map().len() == self.seq().len(),
            self.map().dom().finite(),
    {
        lemma_keyed_map_contents(self.seq(), record_key::<T>());
    }

    /// No two records share a key.
    pub proof fn lemma_distinct(&self)
        requires
            self.wf(),
        ensures
            keys_distinct(self.seq(), record_key::<T>()),
    {
    }

    /// Number of records.
    pub fn len(&self) -> (n: usize)
        requires
            self.wf(),
        ensures
            n == self.map().len(),
            n == self.seq().len(),
    {
        proof {
            self.lemma_map();
        }
        self.rows.len()
    }

    /// The position of the record with this key.
    pub fn find(&self, key: &str) -> (r: Option<usize>)
        requires
            self.wf(),
        ensures
            match r {
                Some(i) => i < self.seq().len() && T::model_key(self.seq()[i as int]) == key@
                    && self.map().contains_key(key@) && self.map()[key@] == self.seq()[i as int],
                None => !self.map().contains_key(key@),
            },
    {
        let ghost vs = self.seq();
        proof {
            self.lemma_map();
        }
        let mut i: usize = 0;
        while i < self.rows.len()
            invariant
                self.wf(),
                i <= self.rows@.len(),
                vs == self.seq(),
                vs.len() == self.rows@.len(),
                forall|j: int| 0 <= j < i ==> T::model_key(#[trigger] vs[j]) != key@,
            decreases self.rows@.len() - i,
        {
            assert(vs[i as int] == self.rows@[i as int].model());
            if str_eq(self.rows[i].key(), key) {
                proof {
                    self.lemma_map();
                }
                return Some(i);
            }
            i = i + 1;
        }
        proof {
            if self.map().contains_key(key@) {
                let j = choose|j: int| 0 <= j < vs.len() && T::model_key(vs[j]) == key@;
                assert(T::model_key(vs[j]) != key@);
            }
        }
        None
    }

    /// The record at a position.
    pub fn at(&self, i: usize) -> (r: &T)
        requires
            i < self.seq().len(),
        ensures
            r.model() == self.seq()[i as int],
    {
        &self.rows[i]
    }

    /// A copy of the record with this key.
    pub fn get(&self, key: &str) -> (r: Option<T>)
        requires
            self.wf(),
        ensures
            match r {
                Some(x) => self.map().contains_key(key@) && x.model() == self.map()[key@],
                None => !self.map().contains_key(key@),
            },
    {
        match self.find(key) {
            Some(i) => Some(self.rows[i].copy()),
            None => None,
        }
    }

    /// Replace the record at a position by one with the same key.
    pub fn set_at(&mut self, i: usize, r: T)
        requires
            old(self).wf(),
            i < old(self).seq().len(),
            T::model_key(r.model()) == T::model_key(old(self).seq()[i as int]),
        ensures
            final(self).wf(),
            final(self).seq() == old(self).seq().update(i as int, r.model()),
            final(self).map() == old(self).map().insert(T::model_key(r.model()), r.model()),
    {
        let ghost prev = self.seq();
        let ghost rm = r.model();
        proof {
            lemma_keyed_map_update(prev, record_key::<T>(), i as int, rm);
        }
        self.rows.set(i, r);
        assert(self.seq() =~= prev.update(i as int, rm));
    }

    /// Insert a record, replacing the one with the same key if there is one
    /// (in its place), else appending it.
    pub fn upsert(&mut self, r: T)
        requires
            old(self).wf(),
        ensures
            final(self).wf(),
            final(self).map() == old(self).map().insert(T::model_key(r.model()), r.model()),
            old(self).map().contains_key(T::model_key(r.model())) ==> final(self).seq().len() == old(self).seq().len(),
            !old(self).map().contains_key(T::model_key(r.model())) ==> final(self).seq() == old(self).seq().push(
                r.model(),
            ),
    {
        match self.find(r.key()) {
            Some(i) => {
                self.set_at(i, r);
            },
            None => {
                let ghost prev = self.seq();
                let ghost rm = r.model();
                proof {
                    self.lemma_map();
                    assert forall|j: int| 0 <= j < prev.len() implies record_key::<T>()(prev[j]) != record_key::<T>()(rm) by {
                        if record_key::<T>()(prev[j]) == record_key::<T>()(rm) {
                            assert(self.map().contains_key(T::model_key(rm)));
                        }
                    }
                    lemma_keyed_map_push(prev, record_key::<T>(), rm);
                }
                self.rows.push(r);
                assert(self.seq() =~= prev.push(rm));
            },
        }
    }

    /// Remove the record with this key, if there is one; the others keep
    /// their order.
    pub fn remove(&mut self, key: &str) -> (r: Option<T>)
        requires
            old(self).wf(),
        ensures
            final(self).wf(),
            final(self).map() == old(self).map().remove(key@),
            match r {
                Some(x) => old(self).map().contains_key(key@) && x.model() == old(self).map()[key@],
                None => !old(self).map().contains_key(key@) && final(self).seq() == old(self).seq(),
            },
    {
        match self.find(key) {
            Some(i) => {
                let ghost prev = self.seq();
                proof {
                    lemma_keyed_map_remove(prev, record_key::<T>(), i as int);
                }
                let x = self.rows.remove(i);
                assert(self.seq() =~= prev.remove(i as int));
                Some(x)
            },
            None => {
                assert(self.map().remove(key@) =~= self.map());
                None
            },
        }
    }

    /// Copies of all records, in insertion order.
    pub fn all(&self) -> (r: Vec<T>)
        ensures
            models(r@) == self.seq(),
    {
        let mut out: Vec<T> = Vec::new();
        let mut i: usize = 0;
        while i < self.rows.len()
            invariant
                i <= self.rows@.len(),
                models(out@) == self.seq().take(i as int),
            decreases self.rows@.len() - i,
        {
            let x = self.rows[i].copy();
            let ghost prev = models(out@);
            out.push(x);
            assert(models(out@) =~= prev.push(self.seq()[i as int]));
            assert(self.seq().take(i + 1) =~= self.seq().take(i as int).push(self.seq()[i as int]));
            i = i + 1;
        }
        assert(self.seq().take(self.rows@.len() as int) =~= self.seq());
        out
    }

    /// Copies of the records with the given keys that are in the table, in
    /// the order of the keys.
    pub fn pick(&self, keys: &Vec<String>) -> (r: Vec<T>)
        requires
            self.wf(),
        ensures
            models(r@) == picked(self.map(), keys@.map_values(|s: String| s@)),
    {
        let ghost ks = keys@.map_values(|s: String| s@);
        let mut out: Vec<T> = Vec::new();
        let mut i: usize = 0;
        while i < keys.len()
            invariant
                self.wf(),
                i <= keys@.len(),
                ks == keys@.map_values(|s: String| s@),
                models(out@) == picked(self.map(), ks.take(i as int)),
            decreases keys@.len() - i,
        {
            assert(ks.take(i + 1).drop_last() =~= ks.take(i as int));
            assert(ks.take(i + 1).last() == keys@[i as int]@);
            match self.find(keys[i].as_str()) {
                Some(j) => {
                    let x = self.rows[j].copy();
                    let ghost prev = models(out@);
                    out.push(x);
                    assert(models(out@) =~= prev.push(self.seq()[j as int]));
                },
                None => {},
            }
            i = i + 1;
        }
        assert(ks.take(keys@.len() as int) =~= ks);
        out
    }
}

/// The records of `m` under `keys` that it holds, in the order of `keys`.
pub open spec fn picked<M>(m: Map<Seq<char>, M>, keys: Seq<Seq<char>>) -> Seq<M>
    decreases keys.len(),
{
    if keys.len() == 0 {
        Seq::empty()
    } else if m.contains_key(keys.last()) {
        picked(m, keys.drop_last()).push(m[keys.last()])
    } else {
        picked(m, keys.drop_last())
    }
}

} // verus!
