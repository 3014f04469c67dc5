//! The audit logger: a bounded, chronological in-memory log with queries.

use vstd::prelude::*;
use crate::audit::category::AuditCategory;
use crate::audit::entry::{AuditEntry, AuditEntryId, AuditEntryView};
use crate::audit::filter::{filter_matches, AuditFilter, AuditSort};
use crate::seq_facts::{lemma_filter_take_step, lemma_filter_take_zero, lemma_take_full};

verus! {

/// Result of an audit query.
#[derive(Debug)]
pub struct AuditQueryResult {
    /// The entries of the requested page.
    pub entries: Vec<AuditEntry>,
    /// Number of matching entries before paging.
    pub total: usize,
    /// The limit applied.
    pub limit: usize,
    /// The offset applied.
    pub offset: usize,
}

/// Summary counts of the audit log.
#[derive(Debug)]
pub struct AuditStats {
    /// Number of entries.
    pub total: usize,
    /// Number of successful entries.
    pub success: usize,
    /// Number of failed entries.
    pub failure: usize,
    /// Number of entries per category, for every category that occurs.
    pub categories: CategoryCounts,
}

/// Number of entries per category, for the categories that occur.
#[derive(Debug)]
pub struct CategoryCounts {
    /// The (category, count) pairs, in the order of `AuditCategory::ALL`.
    pub pairs: Vec<(AuditCategory, usize)>,
}

impl CategoryCounts {
    /// The count of `category`, if it occurs.
    pub fn get(&self, category: &AuditCategory) -> (r: Option<&usize>)
        ensures
            match r {
                Some(n) => exists|i: int| 0 <= i < self.pairs@.len() && self.pairs@[i] == (*category, *n),
                None => forall|i: int| 0 <= i < self.pairs@.len() ==> self.pairs@[i].0 != *category,
            },
    {
        let mut i: usize = 0;
        while i < self.pairs.len()
            invariant
                i <= self.pairs@.len(),
                forall|j: int| 0 <= j < i ==> self.pairs@[j].0 != *category,
            decreases self.pairs@.len() - i,
        {
            if self.pairs[i].0 == *category {
                return Some(&self.pairs[i].1);
            }
            i = i + 1;
        }
        None
    }

    /// Number of categories that occur.
    pub fn len(&self) -> (n: usize)
        ensures
            n == self.pairs@.len(),
    {
        self.pairs.len()
    }
}

/// Bounded audit log; entries are kept in the order they were logged.
pub struct AuditLogger {
    entries: Vec<AuditEntry>,
    max_entries: usize,
}

/// The log after appending `e` to `s` with capacity `max`: when the log
/// would exceed its capacity the oldest entry is dropped.
pub open spec fn logged(s: Seq<AuditEntryView>, e: AuditEntryView, max: nat) -> Seq<
    AuditEntryView,
> {
    if s.len() + 1 > max {
        s.push(e).drop_first()
    } else {
        s.push(e)
    }
}

/// The latest entry of `s` with identifier `id`.
pub open spec fn find_last(s: Seq<AuditEntryView>, id: Seq<char>) -> Option<AuditEntryView>
    decreases s.len(),
{
    if s.len() == 0 {
        None
    } else if s.last().id == id {
        Some(s.last())
    } else {
        find_last(s.drop_last(), id)
    }
}

/// Whether `a` may stay ahead of `b` in the requested order: ties keep
/// their original order.
pub open spec fn keeps_ahead(a: AuditEntryView, b: AuditEntryView, order: AuditSort) -> bool {
    match order {
        AuditSort::NewestFirst => a.timestamp >= b.timestamp,
        AuditSort::OldestFirst => a.timestamp <= b.timestamp,
    }
}

/// Number of leading entries of `s` that stay ahead of `e`.
pub open spec fn lead_count(s: Seq<AuditEntryView>, e: AuditEntryView, order: AuditSort) -> nat
    decreases s.len(),
{
    if s.len() == 0 {
        0
    } else if keeps_ahead(s[0], e, order) {
        1 + lead_count(s.drop_first(), e, order)
    } else {
        0
    }
}

/// Insert `e` into `s` after the entries that stay ahead of it.
pub open spec fn insert_sorted(s: Seq<AuditEntryView>, e: AuditEntryView, order: AuditSort) -> Seq<
    AuditEntryView,
> {
    s.insert(lead_count(s, e, order) as int, e)
}

/// `s` stably sorted by timestamp in the requested order.
pub open spec fn sort_entries(s: Seq<AuditEntryView>, order: AuditSort) -> Seq<AuditEntryView>
    decreases s.len(),
{
    if s.len() == 0 {
        s
    } else {
        insert_sorted(sort_entries(s.drop_last(), order), s.last(), order)
    }
}

/// Whether `s` is ordered by timestamp in the requested order.
pub open spec fn is_ordered(s: Seq<AuditEntryView>, order: AuditSort) -> bool {
    forall|i: int, j: int| 0 <= i < j < s.len() ==> keeps_ahead(s[i], s[j], order)
}

/// The entries of `s` that match `f`, in log order.
pub open spec fn matching(s: Seq<AuditEntryView>, f: AuditFilter) -> Seq<AuditEntryView> {
    s.filter(|e: AuditEntryView| filter_matches(f, e))
}

/// The page of a query: the matching entries, sorted, from `offset`, at
/// most `limit` of them.
pub open spec fn query_page(s: Seq<AuditEntryView>, f: AuditFilter) -> Seq<AuditEntryView> {
    let sorted = sort_entries(matching(s, f), f.sort);
    let limit = match f.limit {
        Some(l) => l as int,
        None => 100,
    };
    let offset = match f.offset {
        Some(o) => o as int,
        None => 0,
    };
    let start = if offset < sorted.len() {
        offset
    } else {
        sorted.len() as int
    };
    let end = if offset + limit < sorted.len() {
        offset + limit
    } else {
        sorted.len() as int
    };
    sorted.subrange(start, end)
}

/// Number of entries of `s` by `actor`.
pub open spec fn count_actor(s: Seq<AuditEntryView>, actor: Seq<char>) -> nat {
    s.filter(|e: AuditEntryView| e.actor == actor).len()
}

/// Number of entries of `s` in `category`.
pub open spec fn count_category(s: Seq<AuditEntryView>, category: AuditCategory) -> nat {
    s.filter(|e: AuditEntryView| e.category == category).len()
}

/// Number of successful entries of `s`.
pub open spec fn count_success(s: Seq<AuditEntryView>) -> nat {
    s.filter(|e: AuditEntryView| e.success).len()
}

/// The views of a sequence of entries.
pub open spec fn views(s: Seq<AuditEntry>) -> Seq<AuditEntryView> {
    s.map_values(|e: AuditEntry| e@)
}

proof fn lemma_lead_count_prefix(
    s: Seq<AuditEntryView>,
    e: AuditEntryView,
    order: AuditSort,
    k: int,
)
    requires
        0 <= k <= s.len(),
        forall|j: int| 0 <= j < k ==> keeps_ahead(s[j], e, order),
    ensures
        lead_count(s, e, order) == k + lead_count(s.skip(k), e, order),
    decreases k,
{
    if k > 0 {
        assert(keeps_ahead(s[0], e, order));
        assert forall|j: int| 0 <= j < k - 1 implies keeps_ahead(s.drop_first()[j], e, order) by {
            assert(s.drop_first()[j] == s[j + 1]);
        }
        lemma_lead_count_prefix(s.drop_first(), e, order, k - 1);
        assert(s.drop_first().skip(k - 1) =~= s.skip(k));
    } else {
        assert(s.skip(0) =~= s);
    }
}

proof fn lemma_lead_count_bound(s: Seq<AuditEntryView>, e: AuditEntryView, order: AuditSort)
    ensures
        lead_count(s, e, order) <= s.len(),
        forall|j: int| 0 <= j < lead_count(s, e, order) ==> keeps_ahead(s[j], e, order),
        lead_count(s, e, order) < s.len() ==> !keeps_ahead(s[lead_count(s, e, order) as int], e, order),
    decreases s.len(),
{
    if s.len() > 0 {
        lemma_lead_count_bound(s.drop_first(), e, order);
        if keeps_ahead(s[0], e, order) {
            assert forall|j: int| 0 <= j < lead_count(s, e, order) implies keeps_ahead(s[j], e, order) by {
                if j > 0 {
                    assert(s.drop_first()[j - 1] == s[j]);
                }
            }
            let n = lead_count(s, e, order);
            if n < s.len() {
                assert(s.drop_first()[n - 1] == s[n as int]);
            }
        }
    }
}

proof fn lemma_keeps_ahead_transitive(a: AuditEntryView, b: AuditEntryView, c: AuditEntryView, order: AuditSort)
    requires
        keeps_ahead(a, b, order),
        keeps_ahead(b, c, order),
    ensures
        keeps_ahead(a, c, order),
{
}

proof fn lemma_insert_sorted_ordered(s: Seq<AuditEntryView>, e: AuditEntryView, order: AuditSort)
    requires
        is_ordered(s, order),
    ensures
        is_ordered(insert_sorted(s, e, order), order),
        insert_sorted(s, e, order).to_multiset() == s.to_multiset().insert(e),
        insert_sorted(s, e, order).len() == s.len() + 1,
{
    lemma_lead_count_bound(s, e, order);
    let k = lead_count(s, e, order) as int;
    let r = insert_sorted(s, e, order);
    assert(r.len() == s.len() + 1);
    assert forall|i: int, j: int| 0 <= i < j < r.len() implies keeps_ahead(r[i], r[j], order) by {
        if i < k && j < k {
            assert(r[i] == s[i] && r[j] == s[j]);
        } else if i < k && j == k {
            assert(r[i] == s[i]);
        } else if i < k && j > k {
            assert(r[i] == s[i] && r[j] == s[j - 1]);
        } else if i == k {
            // s[k] does not stay ahead of e, so e stays ahead of s[k]
            assert(r[j] == s[j - 1]);
            assert(!keeps_ahead(s[k], e, order));
            if j - 1 > k {
                assert(keeps_ahead(s[k], s[j - 1], order));
            }
        } else {
            assert(r[i] == s[i - 1] && r[j] == s[j - 1]);
        }
    }
    s.to_multiset_ensures();
    broadcast use vstd::seq_lib::group_seq_properties;
    assert(s =~= s.take(k) + s.skip(k));
    assert(r =~= s.take(k).push(e) + s.skip(k));
    vstd::seq_lib::lemma_multiset_commutative(s.take(k).push(e), s.skip(k));
    vstd::seq_lib::lemma_multiset_commutative(s.take(k), s.skip(k));
    s.take(k).to_multiset_ensures();
}

/// Sorting orders the entries and keeps exactly the same entries.
pub proof fn lemma_sort_entries(s: Seq<AuditEntryView>, order: AuditSort)
    ensures
        is_ordered(sort_entries(s, order), order),
        sort_entries(s, order).to_multiset() == s.to_multiset(),
        sort_entries(s, order).len() == s.len(),
    decreases s.len(),
{
    if s.len() > 0 {
        lemma_sort_entries(s.drop_last(), order);
        lemma_insert_sorted_ordered(sort_entries(s.drop_last(), order), s.last(), order);
        s.drop_last().to_multiset_ensures();
        assert(s.drop_last().push(s.last()) =~= s);
    } else {
        s.to_multiset_ensures();
    }
}

fn stays_ahead(a: &AuditEntry, b: &AuditEntry, order: AuditSort) -> (r: bool)
    ensures
        r == keeps_ahead(a@, b@, order),
{
    match order {
        AuditSort::NewestFirst => a.timestamp >= b.timestamp,
        AuditSort::OldestFirst => a.timestamp <= b.timestamp,
    }
}

impl Default for AuditLogger {
    /// A log holding at most 100 000 entries.
    fn default() -> (l: AuditLogger)
        ensures
            l.wf(),
            l.spec_entries() == Seq::<AuditEntryView>::empty(),
            l.capacity() == 100000,
    {
        AuditLogger::new(100000)
    }
}

impl AuditLogger {
    /// The entries, oldest first.
    pub closed spec fn spec_entries(&self) -> Seq<AuditEntryView> {
        views(self.entries@)
    }

    /// The capacity of the log.
    pub closed spec fn capacity(&self) -> nat {
        self.max_entries as nat
    }

    /// Well-formedness: the log holds no more entries than its capacity.
    pub closed spec fn wf(&self) -> bool {
        self.entries@.len() <= self.max_entries
    }

    /// An empty log holding at most `max_entries` entries.
    pub fn new(max_entries: usize) -> (l: AuditLogger)
        ensures
            l.wf(),
            l.spec_entries() == Seq::<AuditEntryView>::empty(),
            l.capacity() == max_entries,
    {
        let l = AuditLogger { entries: Vec::new(), max_entries };
        assert(l.spec_entries() =~= Seq::<AuditEntryView>::empty());
        l
    }

    /// Append an entry; when the log is over capacity the oldest entry is
    /// dropped. Returns the entry's id.
    pub fn log(&mut self, entry: AuditEntry) -> (id: AuditEntryId)
        requires
            old(self).wf(),
        ensures
            final(self).wf(),
            final(self).capacity() == old(self).capacity(),
            final(self).spec_entries() == logged(old(self).spec_entries(), entry@, old(self).capacity()),
            id@ == entry.id@,
    {
        let id = entry.id.clone();
        let ghost prev = self.spec_entries();
        let ghost ev = entry@;
        self.entries.push(entry);
        assert(self.spec_entries() =~= prev.push(ev));
        if self.entries.len() > self.max_entries {
            let _removed = self.entries.remove(0);
            assert(self.spec_entries() =~= prev.push(ev).drop_first());
        }
        id
    }

    /// The latest entry logged with this id.
    pub fn get(&self, id: &str) -> (r: Option<AuditEntry>)
        ensures
            match r {
                Some(e) => find_last(self.spec_entries(), id@) == Some(e@),
                None => find_last(self.spec_entries(), id@) == None::<AuditEntryView>,
            },
    {
        let mut i = self.entries.len();
        proof {
            lemma_take_full(self.spec_entries());
        }
        while i > 0
            invariant
                i <= self.entries@.len(),
                find_last(self.spec_entries(), id@) == find_last(self.spec_entries().take(i as int), id@),
            decreases i,
        {
            let ghost s = self.spec_entries().take(i as int);
            assert(s.drop_last() =~= self.spec_entries().take(i - 1));
            assert(s.last() == self.entries@[i - 1]@);
            if crate::text::str_eq(self.entries[i - 1].id.as_str(), id) {
                return Some(self.entries[i - 1].duplicate());
            }
            i = i - 1;
        }
        None
    }

    fn sorted_matches(&self, filter: &AuditFilter) -> (r: Vec<AuditEntry>)
        ensures
            views(r@) == sort_entries(matching(self.spec_entries(), *filter), filter.sort),
    {
        let ghost all = self.spec_entries();
        let ghost p = |e: AuditEntryView| filter_matches(*filter, e);
        let mut out: Vec<AuditEntry> = Vec::new();
        let mut i: usize = 0;
        proof {
            lemma_filter_take_zero(all, p);
        }
        assert(views(out@) =~= sort_entries(all.take(0).filter(p), filter.sort));
        while i < self.entries.len()
            invariant
                i <= self.entries@.len(),
                all == self.spec_entries(),
                p == (|e: AuditEntryView| filter_matches(*filter, e)),
                views(out@) == sort_entries(all.take(i as int).filter(p), filter.sort),
            decreases self.entries@.len() - i,
        {
            proof {
                lemma_filter_take_step(all, p, i as int);
            }
            if filter.matches(&self.entries[i]) {
                let e = self.entries[i].duplicate();
                let ghost prev = views(out@);
                let ghost ev = e@;
                let mut k: usize = 0;
                while k < out.len() && stays_ahead(&out[k], &e, filter.sort)
                    invariant
                        k <= out@.len(),
                        prev == views(out@),
                        ev == e@,
                        forall|j: int| 0 <= j < k ==> keeps_ahead(prev[j], ev, filter.sort),
                    decreases out@.len() - k,
                {
                    k = k + 1;
                }
                proof {
                    lemma_lead_count_prefix(prev, ev, filter.sort, k as int);
                    if (k as int) < prev.len() {
                        assert(!keeps_ahead(prev[k as int], ev, filter.sort));
                    }
                    assert(prev.skip(k as int).len() == 0 ==> lead_count(prev.skip(k as int), ev, filter.sort) == 0);
                }
                out.insert(k, e);
                proof {
                    let t = all.take(i as int).filter(p);
                    assert(t.push(all[i as int]).drop_last() =~= t);
                    assert(views(out@) =~= prev.insert(k as int, ev));
                }
            }
            i = i + 1;
        }
        proof {
            lemma_take_full(all);
        }
        out
    }

    /// Query the log: the matching entries, sorted by timestamp in the
    /// filter's order (ties keep log order), paged by the filter's offset
    /// and limit (100 when unset).
    pub fn query(&self, filter: &AuditFilter) -> (res: AuditQueryResult)
        ensures
            views(res.entries@) == query_page(self.spec_entries(), *filter),
            res.total == matching(self.spec_entries(), *filter).len(),
            res.limit == (match filter.limit {
                Some(l) => l,
                None => 100,
            }),
            res.offset == (match filter.offset {
                Some(o) => o,
                None => 0,
            }),
    {
        let limit = match filter.limit {
            Some(l) => l,
            None => 100,
        };
        let offset = match filter.offset {
            Some(o) => o,
            None => 0,
        };
        let sorted = self.sorted_matches(filter);
        proof {
            lemma_sort_entries(matching(self.spec_entries(), *filter), filter.sort);
        }
        let total = sorted.len();
        let start = if offset < total {
            offset
        } else {
            total
        };
        let end = if limit < total - start {
            start + limit
        } else {
            total
        };
        let mut page: Vec<AuditEntry> = Vec::new();
        let mut i = start;
        while i < end
            invariant
                start <= i <= end <= sorted@.len(),
                views(page@) == views(sorted@).subrange(start as int, i as int),
            decreases end - i,
        {
            let e = sorted[i].duplicate();
            let ghost prev = views(page@);
            let ghost ev = e@;
            page.push(e);
            assert(views(page@) =~= prev.push(ev));
            assert(views(page@) =~= views(sorted@).subrange(start as int, i + 1));
            i = i + 1;
        }
        AuditQueryResult { entries: page, total, limit, offset }
    }

    /// Number of entries.
    pub fn count(&self) -> (n: usize)
        ensures
            n == self.spec_entries().len(),
    {
        self.entries.len()
    }

    /// Number of entries by this actor.
    pub fn count_for_actor(&self, actor: &str) -> (n: usize)
        ensures
            n == count_actor(self.spec_entries(), actor@),
    {
        let ghost all = self.spec_entries();
        let ghost p = |e: AuditEntryView| e.actor == actor@;
        let mut n: usize = 0;
        let mut i: usize = 0;
        proof {
            lemma_filter_take_zero(all, p);
        }
        while i < self.entries.len()
            invariant
                i <= self.entries@.len(),
                all == self.spec_entries(),
                p == (|e: AuditEntryView| e.actor == actor@),
                n == all.take(i as int).filter(p).len(),
                n <= i,
            decreases self.entries@.len() - i,
        {
            proof {
                lemma_filter_take_step(all, p, i as int);
            }
            if crate::text::str_eq(self.entries[i].actor.as_str(), actor) {
                n = n + 1;
            }
            i = i + 1;
        }
        proof {
            lemma_take_full(all);
        }
        n
    }

    /// Number of entries in this category.
    pub fn count_for_category(&self, category: AuditCategory) -> (n: usize)
        ensures
            n == count_category(self.spec_entries(), category),
    {
        let ghost all = self.spec_entries();
        let ghost p = |e: AuditEntryView| e.category == category;
        let mut n: usize = 0;
        let mut i: usize = 0;
        proof {
            lemma_filter_take_zero(all, p);
        }
        while i < self.entries.len()
            invariant
                i <= self.entries@.len(),
                all == self.spec_entries(),
                p == (|e: AuditEntryView| e.category == category),
                n == all.take(i as int).filter(p).len(),
                n <= i,
            decreases self.entries@.len() - i,
        {
            proof {
                lemma_filter_take_step(all, p, i as int);
            }
            if self.entries[i].category == category {
                n = n + 1;
            }
            i = i + 1;
        }
        proof {
            lemma_take_full(all);
        }
        n
    }

    fn count_successes(&self) -> (n: usize)
        ensures
            n == count_success(self.spec_entries()),
            n <= self.spec_entries().len(),
    {
        let ghost all = self.spec_entries();
        let ghost p = |e: AuditEntryView| e.success;
        let mut n: usize = 0;
        let mut i: usize = 0;
        proof {
            lemma_filter_take_zero(all, p);
        }
        while i < self.entries.len()
            invariant
                i <= self.entries@.len(),
                all == self.spec_entries(),
                p == (|e: AuditEntryView| e.success),
                n == all.take(i as int).filter(p).len(),
                n <= i,
            decreases self.entries@.len() - i,
        {
            proof {
                lemma_filter_take_step(all, p, i as int);
            }
            if self.entries[i].success {
                n = n + 1;
            }
            i = i + 1;
        }
        proof {
            lemma_take_full(all);
        }
        n
    }

    /// Number of entries per category, for each category that occurs, in
    /// the order of `AuditCategory::ALL`.
    pub fn count_by_category(&self) -> (counts: CategoryCounts)
        ensures
            forall|i: int| 0 <= i < counts.pairs@.len() ==> counts.pairs@[i].1 == count_category(
                self.spec_entries(),
                counts.pairs@[i].0,
            ) && counts.pairs@[i].1 > 0,
            forall|c: AuditCategory| count_category(self.spec_entries(), c) > 0 ==> exists|i: int|
                0 <= i < counts.pairs@.len() && counts.pairs@[i].0 == c,
            forall|i: int, j: int| 0 <= i < j < counts.pairs@.len() ==> counts.pairs@[i].0 != counts.pairs@[j].0,
    {
        let all = *AuditCategory::ALL;
        let mut r: Vec<(AuditCategory, usize)> = Vec::new();
        let mut i: usize = 0;
        while i < 13
            invariant
                i <= 13,
                all@ == AuditCategory::ALL@,
                forall|j: int| 0 <= j < r@.len() ==> r@[j].1 == count_category(self.spec_entries(), r@[j].0)
                    && r@[j].1 > 0,
                forall|j: int| #![trigger r@[j]] 0 <= j < r@.len() ==> exists|k: int| 0 <= k < i && #[trigger] all@[k] == r@[j].0,
                forall|k: int| 0 <= k < i && count_category(self.spec_entries(), all@[k]) > 0
                    ==> exists|j: int| 0 <= j < r@.len() && r@[j].0 == all@[k],
                forall|a: int, b: int| 0 <= a < b < r@.len() ==> r@[a].0 != r@[b].0,
                forall|a: int, b: int| 0 <= a < b < 13 ==> all@[a] != all@[b],
            decreases 13 - i,
        {
            let c = all[i];
            let n = self.count_for_category(c);
            if n > 0 {
                let ghost prev = r@;
                r.push((c, n));
                proof {
                    assert forall|k: int| 0 <= k < i + 1 && count_category(self.spec_entries(), all@[k]) > 0
                        implies exists|j: int| 0 <= j < r@.len() && r@[j].0 == all@[k] by {
                        if k < i {
                            let j = choose|j: int| 0 <= j < prev.len() && prev[j].0 == all@[k];
                            assert(r@[j] == prev[j]);
                        } else {
                            assert(r@[prev.len() as int].0 == all@[k]);
                        }
                    }
                    assert forall|j: int| #![trigger r@[j]] 0 <= j < r@.len() implies exists|k: int| 0 <= k < i + 1 && #[trigger] all@[k] == r@[j].0 by {
                        if j < prev.len() {
                            assert(r@[j] == prev[j]);
                        } else {
                            assert(all@[i as int] == r@[j].0);
                        }
                    }
                }
            }
            i = i + 1;
        }
        proof {
            assert forall|c: AuditCategory| count_category(self.spec_entries(), c) > 0 implies exists|j: int|
                0 <= j < r@.len() && r@[j].0 == c by {
                let k: int = match c {
                    AuditCategory::Auth => 0,
                    AuditCategory::UserManagement => 1,
                    AuditCategory::Module => 2,
                    AuditCategory::Marketplace => 3,
                    AuditCategory::Billing => 4,
                    AuditCategory::Config => 5,
                    AuditCategory::Secret => 6,
                    AuditCategory::Sso => 7,
                    AuditCategory::Notification => 8,
                    AuditCategory::Rule => 9,
                    AuditCategory::Data => 10,
                    AuditCategory::System => 11,
                    AuditCategory::Other => 12,
                };
                assert(all@[k] == c);
            }
        }
        let counts = CategoryCounts { pairs: r };
        assert forall|c: AuditCategory| count_category(self.spec_entries(), c) > 0 implies exists|i: int|
            0 <= i < counts.pairs@.len() && counts.pairs@[i].0 == c by {
            let i = choose|i: int| 0 <= i < r@.len() && r@[i].0 == c;
            assert(counts.pairs@[i].0 == c);
        }
        counts
    }

    /// Remove every entry.
    pub fn clear(&mut self)
        requires
            old(self).wf(),
        ensures
            final(self).wf(),
            final(self).spec_entries() == Seq::<AuditEntryView>::empty(),
            final(self).capacity() == old(self).capacity(),
    {
        self.entries.clear();
        assert(self.spec_entries() =~= Seq::<AuditEntryView>::empty());
    }

    /// Summary counts.
    pub fn stats(&self) -> (s: AuditStats)
        ensures
            s.total == self.spec_entries().len(),
            s.success == count_success(self.spec_entries()),
            s.failure == s.total - s.success,
            forall|i: int| 0 <= i < s.categories.pairs@.len() ==> s.categories.pairs@[i].1 == count_category(
                self.spec_entries(),
                s.categories.pairs@[i].0,
            ) && s.categories.pairs@[i].1 > 0,
            forall|c: AuditCategory| count_category(self.spec_entries(), c) > 0 ==> exists|i: int|
                0 <= i < s.categories.pairs@.len() && s.categories.pairs@[i].0 == c,
    {
        let total = self.entries.len();
        let success = self.count_successes();
        let categories = self.count_by_category();
        let s = AuditStats { total, success, failure: total - success, categories };
        assert forall|c: AuditCategory| count_category(self.spec_entries(), c) > 0 implies exists|i: int|
            0 <= i < s.categories.pairs@.len() && s.categories.pairs@[i].0 == c by {
            let i = choose|i: int| 0 <= i < s.categories.pairs@.len() && s.categories.pairs@[i].0 == c;
        }
        s
    }
}

/// A log never holds more entries than its capacity, and the entry just
/// logged is the newest one whenever the capacity is not zero.
pub proof fn lemma_logged_bounded(s: Seq<AuditEntryView>, e: AuditEntryView, max: nat)
    requires
        s.len() <= max,
    ensures
        logged(s, e, max).len() <= max,
        max > 0 ==> logged(s, e, max).last() == e,
        max > 0 ==> logged(s, e, max).len() as int == (if s.len() < max { s.len() as int + 1 } else { max as int }) as int,
{
}

/// The page of a query is ordered by timestamp in the requested order,
/// and every entry on it matches the filter.
pub proof fn lemma_query_page_ordered_and_matching(s: Seq<AuditEntryView>, f: AuditFilter)
    ensures
        is_ordered(query_page(s, f), f.sort),
        forall|i: int| 0 <= i < query_page(s, f).len() ==> filter_matches(f, #[trigger] query_page(s, f)[i]),
{
    let m = matching(s, f);
    lemma_sort_entries(m, f.sort);
    let sorted = sort_entries(m, f.sort);
    let page = query_page(s, f);
    assert forall|i: int| 0 <= i < page.len() implies filter_matches(f, #[trigger] page[i]) by {
        let limit = match f.limit { Some(l) => l as int, None => 100 };
        let offset = match f.offset { Some(o) => o as int, None => 0 };
        let start = if offset < sorted.len() { offset } else { sorted.len() as int };
        let x = sorted[start + i];
        assert(sorted.to_multiset().count(x) > 0) by {
            sorted.to_multiset_ensures();
            assert(sorted.contains(x));
        }
        m.to_multiset_ensures();
        assert(m.contains(x));
        let j = choose|j: int| 0 <= j < m.len() && m[j] == x;
        s.lemma_filter_pred(|e: AuditEntryView| filter_matches(f, e), j);
    }
}


/// Logging into a full log evicts its oldest entry and keeps the others
/// in order; into a log with room, it only appends.
pub proof fn lemma_logged_evicts_oldest(s: Seq<AuditEntryView>, e: AuditEntryView, max: nat)
    requires
        s.len() <= max,
    ensures
        s.len() < max ==> logged(s, e, max) == s.push(e),
        s.len() == max && max > 0 ==> logged(s, e, max) == s.drop_first().push(e),
{
    if s.len() == max && max > 0 {
        assert(s.push(e).drop_first() =~= s.drop_first().push(e));
    }
}

/// Whether no two entries of `s` share an id.
pub open spec fn distinct_ids(s: Seq<AuditEntryView>) -> bool {
    forall|i: int, j: int| 0 <= i < j < s.len() ==> #[trigger] s[i].id != #[trigger] s[j].id
}

proof fn lemma_find_last_absent(t: Seq<AuditEntryView>, id: Seq<char>)
    requires
        forall|i: int| 0 <= i < t.len() ==> #[trigger] t[i].id != id,
    ensures
        find_last(t, id) is None,
    decreases t.len(),
{
    if t.len() > 0 {
        assert(t.last() == t[t.len() - 1]);
        let d = t.drop_last();
        assert forall|i: int| 0 <= i < d.len() implies #[trigger] d[i].id != id by {
            assert(d[i] == t[i]);
        }
        lemma_find_last_absent(d, id);
    }
}

proof fn lemma_find_last_at(t: Seq<AuditEntryView>, k: int)
    requires
        distinct_ids(t),
        0 <= k < t.len(),
    ensures
        find_last(t, t[k].id) == Some(t[k]),
    decreases t.len(),
{
    let id = t[k].id;
    if k < t.len() - 1 {
        assert(t[k].id != t[t.len() - 1].id);
        let d = t.drop_last();
        assert(d[k] == t[k]);
        assert forall|i: int, j: int| 0 <= i < j < d.len() implies #[trigger] d[i].id != #[trigger] d[j].id by {
            assert(d[i] == t[i] && d[j] == t[j]);
        }
        lemma_find_last_at(d, k);
    }
}

/// In a log whose ids are all different, logging an entry with a new id:
/// the entry is found by its id; when the log was full, the oldest entry is
/// gone and its id finds nothing; every other entry is found as before.
pub proof fn lemma_logged_lookup(s: Seq<AuditEntryView>, e: AuditEntryView, max: nat)
    requires
        0 < max,
        s.len() <= max,
        distinct_ids(s),
        forall|i: int| 0 <= i < s.len() ==> #[trigger] s[i].id != e.id,
    ensures
        find_last(logged(s, e, max), e.id) == Some(e),
        s.len() == max ==> find_last(logged(s, e, max), s[0].id) is None,
        forall|i: int|
            (if s.len() == max { 1int } else { 0int }) <= i < s.len() ==> find_last(logged(s, e, max), #[trigger] s[i].id)
                == Some(s[i]),
{
    let t = logged(s, e, max);
    lemma_logged_evicts_oldest(s, e, max);
    let off: int = if s.len() == max { 1 } else { 0 };
    assert(t.len() == s.len() - off + 1);
    assert forall|i: int| 0 <= i < t.len() - 1 implies #[trigger] t[i] == s[i + off] by {}
    assert(t[t.len() - 1] == e);
    assert forall|i: int, j: int| 0 <= i < j < t.len() implies #[trigger] t[i].id != #[trigger] t[j].id by {
        if j == t.len() - 1 {
            assert(t[i] == s[i + off]);
        } else {
            assert(t[i] == s[i + off] && t[j] == s[j + off]);
        }
    }
    assert(t.last() == e);
    if s.len() == max {
        assert forall|i: int| 0 <= i < t.len() implies #[trigger] t[i].id != s[0].id by {
            if i < t.len() - 1 {
                assert(t[i] == s[i + 1]);
            }
        }
        lemma_find_last_absent(t, s[0].id);
    }
    assert forall|i: int| off <= i < s.len() implies find_last(t, #[trigger] s[i].id) == Some(s[i]) by {
        assert(t[i - off] == s[i]);
        lemma_find_last_at(t, i - off);
    }
}

} // verus!
