//! Filters over the audit log.

use vstd::prelude::*;
use crate::audit::category::AuditCategory;
use crate::audit::entry::{AuditEntry, AuditEntryView};

verus! {

/// Order of query results.
#[derive(Clone, Copy, Debug, PartialEq, Eq, Structural)]
pub enum AuditSort {
    /// Newest first (descending timestamp).
    NewestFirst,
    /// Oldest first (ascending timestamp).
    OldestFirst,
}

impl Default for AuditSort {
    fn default() -> (s: AuditSort)
        ensures
            s == AuditSort::NewestFirst,
    {
        AuditSort::NewestFirst
    }
}

/// A filter for querying audit entries. Every criterion that is set must
/// hold; an empty filter matches everything.
#[derive(Clone, Debug)]
pub struct AuditFilter {
    /// Exact actor.
    pub actor: Option<String>,
    /// Exact action.
    pub action: Option<String>,
    /// Exact target.
    pub target: Option<String>,
    /// Category.
    pub category: Option<AuditCategory>,
    /// `Some(true)`: successes only; `Some(false)`: failures only.
    pub success_only: Option<bool>,
    /// Smallest timestamp allowed (unix nanoseconds).
    pub from_timestamp: Option<i64>,
    /// Largest timestamp allowed (unix nanoseconds).
    pub to_timestamp: Option<i64>,
    /// Number of results (100 when unset).
    pub limit: Option<usize>,
    /// Number of results to skip.
    pub offset: Option<usize>,
    /// Order of results.
    pub sort: AuditSort,
}

/// Whether `e` satisfies every criterion that `f` sets.
pub open spec fn filter_matches(f: AuditFilter, e: AuditEntryView) -> bool {
    &&& (f.actor matches Some(a) ==> e.actor == a@)
    &&& (f.action matches Some(a) ==> e.action == a@)
    &&& (f.target matches Some(t) ==> e.target == t@)
    &&& (f.category matches Some(c) ==> e.category == c)
    &&& (f.success_only matches Some(s) ==> e.success == s)
    &&& (f.from_timestamp matches Some(from) ==> e.timestamp >= from)
    &&& (f.to_timestamp matches Some(to) ==> e.timestamp <= to)
}

/// The filter that sets no criterion.
pub open spec fn empty_filter() -> AuditFilter {
    AuditFilter {
        actor: None,
        action: None,
        target: None,
        category: None,
        success_only: None,
        from_timestamp: None,
        to_timestamp: None,
        limit: None,
        offset: None,
        sort: AuditSort::NewestFirst,
    }
}

impl Default for AuditFilter {
    fn default() -> (f: AuditFilter)
        ensures
            f == empty_filter(),
    {
        AuditFilter::new()
    }
}

impl AuditFilter {
    /// An empty filter (matches everything).
    pub fn new() -> (f: AuditFilter)
        ensures
            f == empty_filter(),
    {
        AuditFilter {
            actor: None,
            action: None,
            target: None,
            category: None,
            success_only: None,
            from_timestamp: None,
            to_timestamp: None,
            limit: None,
            offset: None,
            sort: AuditSort::NewestFirst,
        }
    }

    /// Require this actor.
    pub fn with_actor(self, actor: &str) -> (f: AuditFilter)
        ensures
            f.actor.is_some() && f.actor.unwrap()@ == actor@,
            f.action == self.action && f.target == self.target && f.category == self.category,
            f.success_only == self.success_only && f.from_timestamp == self.from_timestamp,
            f.to_timestamp == self.to_timestamp && f.limit == self.limit && f.offset
                == self.offset && f.sort == self.sort,
    {
        let mut f = self;
        f.actor = Some(actor.to_owned());
        f
    }

    /// Require this action.
    pub fn with_action(self, action: &str) -> (f: AuditFilter)
        ensures
            f.action.is_some() && f.action.unwrap()@ == action@,
            f.actor == self.actor && f.target == self.target && f.category == self.category,
            f.success_only == self.success_only && f.from_timestamp == self.from_timestamp,
            f.to_timestamp == self.to_timestamp && f.limit == self.limit && f.offset
                == self.offset && f.sort == self.sort,
    {
        let mut f = self;
        f.action = Some(action.to_owned());
        f
    }

    /// Require this target.
    pub fn with_target(self, target: &str) -> (f: AuditFilter)
        ensures
            f.target.is_some() && f.target.unwrap()@ == target@,
            f.actor == self.actor && f.action == self.action && f.category == self.category,
            f.success_only == self.success_only && f.from_timestamp == self.from_timestamp,
            f.to_timestamp == self.to_timestamp && f.limit == self.limit && f.offset
                == self.offset && f.sort == self.sort,
    {
        let mut f = self;
        f.target = Some(target.to_owned());
        f
    }

    /// Require this category.
    pub fn with_category(self, category: AuditCategory) -> (f: AuditFilter)
        ensures
            f == (AuditFilter { category: Some(category), ..self }),
    {
        let mut f = self;
        f.category = Some(category);
        f
    }

    /// Successful entries only.
    pub fn success_only(self) -> (f: AuditFilter)
        ensures
            f == (AuditFilter { success_only: Some(true), ..self }),
    {
        let mut f = self;
        f.success_only = Some(true);
        f
    }

    /// Failed entries only.
    pub fn failures_only(self) -> (f: AuditFilter)
        ensures
            f == (AuditFilter { success_only: Some(false), ..self }),
    {
        let mut f = self;
        f.success_only = Some(false);
        f
    }

    /// Entries at or after this timestamp.
    pub fn from(self, ts: i64) -> (f: AuditFilter)
        ensures
            f == (AuditFilter { from_timestamp: Some(ts), ..self }),
    {
        let mut f = self;
        f.from_timestamp = Some(ts);
        f
    }

    /// Entries at or before this timestamp.
    pub fn to(self, ts: i64) -> (f: AuditFilter)
        ensures
            f == (AuditFilter { to_timestamp: Some(ts), ..self }),
    {
        let mut f = self;
        f.to_timestamp = Some(ts);
        f
    }

    /// Set the number of results.
    pub fn with_limit(self, limit: usize) -> (f: AuditFilter)
        ensures
            f == (AuditFilter { limit: Some(limit), ..self }),
    {
        let mut f = self;
        f.limit = Some(limit);
        f
    }

    /// Set the number of results to skip.
    pub fn with_offset(self, offset: usize) -> (f: AuditFilter)
        ensures
            f == (AuditFilter { offset: Some(offset), ..self }),
    {
        let mut f = self;
        f.offset = Some(offset);
        f
    }

    /// Set the order of results.
    pub fn with_sort(self, sort: AuditSort) -> (f: AuditFilter)
        ensures
            f == (AuditFilter { sort, ..self }),
    {
        let mut f = self;
        f.sort = sort;
        f
    }

    /// Whether `entry` satisfies every criterion of the filter.
    pub fn matches(&self, entry: &AuditEntry) -> (b: bool)
        ensures
            b == filter_matches(*self, entry@),
    {
        if let Some(actor) = &self.actor {
            if !(entry.actor == *actor) {
                return false;
            }
        }
        if let Some(action) = &self.action {
            if !(entry.action == *action) {
                return false;
            }
        }
        if let Some(target) = &self.target {
            if !(entry.target == *target) {
                return false;
            }
        }
        if let Some(cat) = self.category {
            if entry.category != cat {
                return false;
            }
        }
        if let Some(success) = self.success_only {
            if entry.success != success {
                return false;
            }
        }
        if let Some(from) = self.from_timestamp {
            if entry.timestamp < from {
                return false;
            }
        }
        if let Some(to) = self.to_timestamp {
            if entry.timestamp > to {
                return false;
            }
        }
        true
    }
}

/// An empty filter matches every entry.
pub proof fn lemma_empty_filter_matches_all(e: AuditEntryView)
    ensures
        filter_matches(empty_filter(), e),
{
}

} // verus!
