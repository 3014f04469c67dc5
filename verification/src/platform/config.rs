//! The configuration manager: named values that can be replaced at once.

use vstd::prelude::*;
use crate::table::{Record, Table, models};

verus! {

/// A configuration value.
#[derive(Debug, PartialEq)]
pub enum ConfigValue {
    /// Text.
    Str(String),
    /// Integer.
    Int(i64),
    /// Boolean.
    Bool(bool),
    /// Floating-point number, held as its IEEE 754 bit pattern.
    Float(u64),
    /// Nested values by name.
    Nested(Vec<(String, ConfigValue)>),
}

/// A configuration value as data.
pub enum ValueView {
    Str(Seq<char>),
    Int(i64),
    Bool(bool),
    Float(u64),
    Nested(Seq<(Seq<char>, ValueView)>),
}

/// A configuration value as data.
pub open spec fn value_view(v: ConfigValue) -> ValueView
    decreases v,
{
    match v {
        ConfigValue::Str(s) => ValueView::Str(s@),
        ConfigValue::Int(i) => ValueView::Int(i),
        ConfigValue::Bool(b) => ValueView::Bool(b),
        ConfigValue::Float(f) => ValueView::Float(f),
        ConfigValue::Nested(pairs) => ValueView::Nested(
            Seq::new(
                pairs@.len(),
                |i: int|
                    if 0 <= i < pairs@.len() {
                        (pairs@[i].0@, value_view(pairs@[i].1))
                    } else {
                        (Seq::empty(), ValueView::Int(0))
                    },
            ),
        ),
    }
}

impl ConfigValue {
    /// An independent copy.
    pub fn duplicate(&self) -> (r: ConfigValue)
        ensures
            value_view(r) == value_view(*self),
        decreases self,
    {
        match self {
            ConfigValue::Str(s) => ConfigValue::Str(s.clone()),
            ConfigValue::Int(i) => ConfigValue::Int(*i),
            ConfigValue::Bool(b) => ConfigValue::Bool(*b),
            ConfigValue::Float(f) => ConfigValue::Float(*f),
            ConfigValue::Nested(pairs) => {
                let mut out: Vec<(String, ConfigValue)> = Vec::new();
                let mut i: usize = 0;
                while i < pairs.len()
                    invariant
                        i <= pairs@.len(),
                        out@.len() == i,
                        forall|j: int| 0 <= j < i ==> out@[j].0@ == pairs@[j].0@ && #[trigger] value_view(out@[j].1)
                            == value_view(pairs@[j].1),
                        *self == ConfigValue::Nested(*pairs),
                    decreases pairs@.len() - i,
                {
                    proof {
                        vstd::std_specs::vec::axiom_vec_index_decreases(*pairs, i as int);
                        assert((*self)->Nested_0 == *pairs);
                        assert(decreases_to!(*self => (*self)->Nested_0));
                        assert(decreases_to!(pairs@[i as int] => pairs@[i as int].1));
                    }
                    let k = pairs[i].0.clone();
                    let v = pairs[i].1.duplicate();
                    let ghost before = out@;
                    out.push((k, v));
                    proof {
                        assert forall|j: int| 0 <= j < i + 1 implies out@[j].0@ == pairs@[j].0@ && #[trigger] value_view(
                            out@[j].1,
                        ) == value_view(pairs@[j].1) by {
                            if j < i {
                                assert(out@[j] == before[j]);
                            }
                        }
                    }
                    i = i + 1;
                }
                let r = ConfigValue::Nested(out);
                proof {
                    let a = value_view(r);
                    let b = value_view(*self);
                    assert(out@.len() == pairs@.len());
                    assert forall|j: int| 0 <= j < out@.len() implies #[trigger] a->Nested_0[j] == b->Nested_0[j] by {
                        assert(value_view(out@[j].1) == value_view(pairs@[j].1));
                    }
                    assert(a->Nested_0 =~= b->Nested_0);
                }
                r
            },
        }
    }

    /// The text, if this is text.
    pub fn as_str(&self) -> (r: Option<&str>)
        ensures
            match self {
                ConfigValue::Str(s) => r matches Some(t) && t@ == s@,
                _ => r is None,
            },
    {
        match self {
            ConfigValue::Str(s) => Some(s.as_str()),
            _ => None,
        }
    }

    /// The integer, if this is an integer.
    pub fn as_int(&self) -> (r: Option<i64>)
        ensures
            r == match self {
                ConfigValue::Int(i) => Some(*i),
                _ => None::<i64>,
            },
    {
        match self {
            ConfigValue::Int(i) => Some(*i),
            _ => None,
        }
    }

    /// The boolean, if this is a boolean.
    pub fn as_bool(&self) -> (r: Option<bool>)
        ensures
            r == match self {
                ConfigValue::Bool(b) => Some(*b),
                _ => None::<bool>,
            },
    {
        match self {
            ConfigValue::Bool(b) => Some(*b),
            _ => None,
        }
    }
}

/// A named value.
#[derive(Debug)]
pub struct ConfigEntry {
    /// The name.
    pub key: String,
    /// The value.
    pub value: ConfigValue,
}

impl Record for ConfigEntry {
    type Model = (Seq<char>, ValueView);

    open spec fn model(&self) -> (Seq<char>, ValueView) {
        (self.key@, value_view(self.value))
    }

    open spec fn model_key(m: (Seq<char>, ValueView)) -> Seq<char> {
        m.0
    }

    fn key(&self) -> (k: &str) {
        self.key.as_str()
    }

    fn copy(&self) -> (r: ConfigEntry) {
        ConfigEntry { key: self.key.clone(), value: self.value.duplicate() }
    }
}

/// The values that a list of pairs sets, later pairs winning.
pub open spec fn loaded(pairs: Seq<(String, ConfigValue)>) -> Map<Seq<char>, ValueView>
    decreases pairs.len(),
{
    if pairs.len() == 0 {
        Map::empty()
    } else {
        loaded(pairs.drop_last()).insert(pairs.last().0@, value_view(pairs.last().1))
    }
}

/// The configuration manager.
#[derive(Debug)]
pub struct ConfigManager {
    values: Table<ConfigEntry>,
}

impl Default for ConfigManager {
    fn default() -> (c: ConfigManager)
        ensures
            c.wf(),
            c.values() == Map::<Seq<char>, ValueView>::empty(),
    {
        ConfigManager::new()
    }
}

impl ConfigManager {
    /// The values by name.
    pub closed spec fn values(&self) -> Map<Seq<char>, ValueView> {
        Map::new(|k: Seq<char>| self.values.map().contains_key(k), |k: Seq<char>| self.values.map()[k].1)
    }

    /// Well-formedness: names are distinct.
    pub closed spec fn wf(&self) -> bool {
        self.values.wf()
    }

    /// An empty configuration.
    pub fn new() -> (c: ConfigManager)
        ensures
            c.wf(),
            c.values() == Map::<Seq<char>, ValueView>::empty(),
    {
        let c = ConfigManager { values: Table::new() };
        assert(c.values() =~= Map::<Seq<char>, ValueView>::empty());
        c
    }

    /// Set a value.
    pub fn set(&mut self, key: &str, value: ConfigValue)
        requires
            old(self).wf(),
        ensures
            final(self).wf(),
            final(self).values() == old(self).values().insert(key@, value_view(value)),
    {
        self.values.upsert(ConfigEntry { key: key.to_owned(), value });
        assert(self.values() =~= old(self).values().insert(key@, value_view(value)));
    }

    /// A copy of a value.
    pub fn get(&self, key: &str) -> (r: Option<ConfigValue>)
        requires
            self.wf(),
        ensures
            match r {
                Some(v) => self.values().contains_key(key@) && value_view(v) == self.values()[key@],
                None => !self.values().contains_key(key@),
            },
    {
        match self.values.find(key) {
            Some(i) => Some(self.values.at(i).value.duplicate()),
            None => None,
        }
    }

    /// A text value.
    pub fn get_str(&self, key: &str) -> (r: Option<String>)
        requires
            self.wf(),
        ensures
            match r {
                Some(s) => self.values().contains_key(key@) && self.values()[key@] == ValueView::Str(s@),
                None => !(self.values().contains_key(key@) && self.values()[key@] is Str),
            },
    {
        match self.values.find(key) {
            Some(i) => match self.values.at(i).value.as_str() {
                Some(s) => Some(s.to_owned()),
                None => None,
            },
            None => None,
        }
    }

    /// An integer value.
    pub fn get_int(&self, key: &str) -> (r: Option<i64>)
        requires
            self.wf(),
        ensures
            r == (if self.values().contains_key(key@) && self.values()[key@] is Int {
                Some(self.values()[key@]->Int_0)
            } else {
                None::<i64>
            }),
    {
        match self.values.find(key) {
            Some(i) => self.values.at(i).value.as_int(),
            None => None,
        }
    }

    /// A boolean value.
    pub fn get_bool(&self, key: &str) -> (r: Option<bool>)
        requires
            self.wf(),
        ensures
            r == (if self.values().contains_key(key@) && self.values()[key@] is Bool {
                Some(self.values()[key@]->Bool_0)
            } else {
                None::<bool>
            }),
    {
        match self.values.find(key) {
            Some(i) => self.values.at(i).value.as_bool(),
            None => None,
        }
    }

    /// A value, or `default` when it is not set.
    pub fn get_or(&self, key: &str, default: ConfigValue) -> (r: ConfigValue)
        requires
            self.wf(),
        ensures
            value_view(r) == (if self.values().contains_key(key@) {
                self.values()[key@]
            } else {
                value_view(default)
            }),
    {
        match self.get(key) {
            Some(v) => v,
            None => default,
        }
    }

    /// Replace every value by those of `new_values` (a later pair wins
    /// over an earlier one with the same name).
    pub fn reload(&mut self, new_values: Vec<(String, ConfigValue)>)
        requires
            old(self).wf(),
        ensures
            final(self).wf(),
            final(self).values() == loaded(new_values@),
    {
        let mut table: Table<ConfigEntry> = Table::new();
        let mut i: usize = 0;
        let ghost pairs = new_values@;
        while i < new_values.len()
            invariant
                table.wf(),
                i <= pairs.len(),
                pairs == new_values@,
                Map::new(|k: Seq<char>| table.map().contains_key(k), |k: Seq<char>| table.map()[k].1) == loaded(
                    pairs.take(i as int),
                ),
            decreases pairs.len() - i,
        {
            let k = new_values[i].0.clone();
            let v = new_values[i].1.duplicate();
            let ghost before = table.map();
            table.upsert(ConfigEntry { key: k, value: v });
            assert(pairs.take(i + 1).drop_last() =~= pairs.take(i as int));
            assert(Map::new(|k: Seq<char>| table.map().contains_key(k), |k: Seq<char>| table.map()[k].1)
                =~= loaded(pairs.take(i + 1)));
            i = i + 1;
        }
        assert(pairs.take(pairs.len() as int) =~= pairs);
        self.values = table;
    }

    /// Copies of all values with their names, in the order names were first
    /// set.
    pub fn snapshot(&self) -> (r: Vec<(String, ConfigValue)>)
        requires
            self.wf(),
        ensures
            r@.len() == self.values().len(),
            forall|i: int| 0 <= i < r@.len() ==> #[trigger] self.values().contains_key(r@[i].0@)
                && self.values()[r@[i].0@] == value_view(r@[i].1),
            forall|k: Seq<char>| #[trigger] self.values().contains_key(k) ==> exists|i: int|
                0 <= i < r@.len() && r@[i].0@ == k,
    {
        let all = self.values.all();
        proof {
            self.values.lemma_map();
            assert(self.values().dom() =~= self.values.map().dom());
        }
        let mut out: Vec<(String, ConfigValue)> = Vec::new();
        let mut i: usize = 0;
        while i < all.len()
            invariant
                self.wf(),
                i <= all@.len(),
                models(all@) == self.values.seq(),
                out@.len() == i,
                forall|j: int| 0 <= j < i ==> #[trigger] out@[j].0@ == all@[j].key@ && value_view(out@[j].1)
                    == value_view(all@[j].value),
            decreases all@.len() - i,
        {
            let k = all[i].key.clone();
            let v = all[i].value.duplicate();
            out.push((k, v));
            i = i + 1;
        }
        proof {
            self.values.lemma_map();
            assert forall|j: int| 0 <= j < out@.len() implies #[trigger] self.values().contains_key(out@[j].0@)
                && self.values()[out@[j].0@] == value_view(out@[j].1) by {
                assert(models(all@)[j] == all@[j].model());
                assert(self.values.seq()[j] == all@[j].model());
                assert(self.values.map()[self.values.seq()[j].0] == self.values.seq()[j]);
            }
            assert forall|k: Seq<char>| #[trigger] self.values().contains_key(k) implies exists|j: int|
                0 <= j < out@.len() && out@[j].0@ == k by {
                let j = choose|j: int| 0 <= j < self.values.seq().len() && self.values.seq()[j].0 == k;
                assert(models(all@)[j] == all@[j].model());
                assert(out@[j].0@ == k);
            }
        }
        out
    }
}


/// A read gives back what a write wrote: once `set` has stored `value`
/// under `key` (moving the manager from `before` to `after`), `get` of that
/// key finds it, and every other key reads as before.
pub proof fn lemma_get_after_set(before: ConfigManager, after: ConfigManager, key: Seq<char>, value: ValueView)
    requires
        after.values() == before.values().insert(key, value),
    ensures
        after.values().contains_key(key),
        after.values()[key] == value,
        forall|k: Seq<char>| k != key ==> (#[trigger] after.values().contains_key(k) == before.values().contains_key(k))
            && (before.values().contains_key(k) ==> after.values()[k] == before.values()[k]),
{
}

} // verus!
