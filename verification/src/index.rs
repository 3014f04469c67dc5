//! Lists of record ids per owner (the invoices of a customer, the
//! sessions of a user), in the order the ids were recorded.

use vstd::prelude::*;
use crate::table::{Record, Table};
use crate::text::{copy_strings, str_eq};

verus! {

/// The ids recorded for one owner, in order.
#[derive(Debug)]
pub struct CustomerIds {
    /// Owner id.
    pub customer: String,
    /// Record ids.
    pub ids: Vec<String>,
}

/// The ids of an owner as values.
pub struct CustomerIdsView {
    pub customer: Seq<char>,
    pub ids: Seq<Seq<char>>,
}

impl Record for CustomerIds {
    type Model = CustomerIdsView;

    open spec fn model(&self) -> CustomerIdsView {
        CustomerIdsView { customer: self.customer@, ids: self.ids@.map_values(|s: String| s@) }
    }

    open spec fn model_key(m: CustomerIdsView) -> Seq<char> {
        m.customer
    }

    fn key(&self) -> (k: &str) {
        self.customer.as_str()
    }

    fn copy(&self) -> (r: CustomerIds) {
        let ids = copy_strings(&self.ids);
        let r = CustomerIds { customer: self.customer.clone(), ids };
        assert(r.ids@.map_values(|s: String| s@) =~= self.ids@.map_values(|s: String| s@));
        r
    }
}

/// The ids recorded for `customer`, none if there are none.
pub open spec fn ids_for(index: Map<Seq<char>, CustomerIdsView>, customer: Seq<char>) -> Seq<Seq<char>> {
    if index.contains_key(customer) {
        index[customer].ids
    } else {
        Seq::empty()
    }
}

/// The index with `id` recorded last for `customer`.
pub open spec fn index_push(index: Map<Seq<char>, CustomerIdsView>, customer: Seq<char>, id: Seq<char>) -> Map<
    Seq<char>,
    CustomerIdsView,
> {
    index.insert(customer, CustomerIdsView { customer, ids: ids_for(index, customer).push(id) })
}

/// Record `id` last in the list of `customer`.
pub fn record_id(index: &mut Table<CustomerIds>, customer: &str, id: &str)
    requires
        old(index).wf(),
    ensures
        final(index).wf(),
        final(index).map() == index_push(old(index).map(), customer@, id@),
{
    match index.find(customer) {
        Some(i) => {
            let cur = index.at(i);
            let mut ids = copy_strings(&cur.ids);
            let ghost before = ids@.map_values(|s: String| s@);
            ids.push(id.to_owned());
            let r = CustomerIds { customer: customer.to_owned(), ids };
            assert(r.model().ids =~= before.push(id@));
            index.set_at(i, r);
            assert(final(index).map() =~= index_push(old(index).map(), customer@, id@));
        },
        None => {
            let mut ids: Vec<String> = Vec::new();
            ids.push(id.to_owned());
            let r = CustomerIds { customer: customer.to_owned(), ids };
            assert(r.model().ids =~= Seq::<Seq<char>>::empty().push(id@));
            index.upsert(r);
        },
    }
}

/// The ids recorded for `customer`.
pub fn ids_of(index: &Table<CustomerIds>, customer: &str) -> (r: Vec<String>)
    requires
        index.wf(),
    ensures
        r@.map_values(|s: String| s@) == ids_for(index.map(), customer@),
{
    match index.find(customer) {
        Some(i) => copy_strings(&index.at(i).ids),
        None => {
            let r: Vec<String> = Vec::new();
            assert(r@.map_values(|s: String| s@) =~= Seq::<Seq<char>>::empty());
            r
        },
    }
}

/// `ids` without `id`.
pub open spec fn without_id(ids: Seq<Seq<char>>, id: Seq<char>) -> Seq<Seq<char>> {
    ids.filter(|x: Seq<char>| x != id)
}

/// Remove `id` from the list of `owner`, if the owner has a list.
pub fn forget_id(index: &mut Table<CustomerIds>, owner: &str, id: &str)
    requires
        old(index).wf(),
    ensures
        final(index).wf(),
        final(index).map() == (if old(index).map().contains_key(owner@) {
            old(index).map().insert(
                owner@,
                CustomerIdsView { customer: owner@, ids: without_id(old(index).map()[owner@].ids, id@) },
            )
        } else {
            old(index).map()
        }),
{
    match index.find(owner) {
        Some(i) => {
            let cur = index.at(i);
            let ghost all = cur.ids@.map_values(|s: String| s@);
            let ghost p = |x: Seq<char>| x != id@;
            let mut kept: Vec<String> = Vec::new();
            let mut j: usize = 0;
            proof {
                crate::seq_facts::lemma_filter_take_zero(all, p);
            }
            while j < cur.ids.len()
                invariant
                    j <= cur.ids@.len(),
                    all == cur.ids@.map_values(|s: String| s@),
                    p == (|x: Seq<char>| x != id@),
                    kept@.map_values(|s: String| s@) == all.take(j as int).filter(p),
                decreases cur.ids@.len() - j,
            {
                proof {
                    crate::seq_facts::lemma_filter_take_step(all, p, j as int);
                }
                if !str_eq(cur.ids[j].as_str(), id) {
                    let x = cur.ids[j].clone();
                    let ghost before = kept@.map_values(|s: String| s@);
                    kept.push(x);
                    assert(kept@.map_values(|s: String| s@) =~= before.push(all[j as int]));
                }
                j = j + 1;
            }
            proof {
                crate::seq_facts::lemma_take_full(all);
            }
            let r = CustomerIds { customer: owner.to_owned(), ids: kept };
            index.set_at(i, r);
            assert(final(index).map() =~= old(index).map().insert(
                owner@,
                CustomerIdsView { customer: owner@, ids: without_id(old(index).map()[owner@].ids, id@) },
            ));
        },
        None => {},
    }
}

} // verus!
