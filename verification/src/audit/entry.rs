//! One entry of the audit log.

use vstd::prelude::*;
use crate::audit::category::AuditCategory;
use crate::string_map::StringMap;
use crate::sys::{new_uuid, now_unix_nanos};

verus! {

/// Identifier of an audit entry.
pub type AuditEntryId = String;

/// One entry of the audit log.
#[derive(Debug)]
pub struct AuditEntry {
    /// Unique identifier.
    pub id: AuditEntryId,
    /// Who performed the action (user id, service id or "system").
    pub actor: String,
    /// The action performed (e.g. "login", "create_user").
    pub action: String,
    /// What the action was performed on (e.g. "user-123").
    pub target: String,
    /// Category of the action.
    pub category: AuditCategory,
    /// Whether the action succeeded.
    pub success: bool,
    /// Error message, when the action failed.
    pub error: Option<String>,
    /// Extra data (IP, user agent, ...).
    pub metadata: StringMap,
    /// When the action happened (unix nanoseconds).
    pub timestamp: i64,
}

/// The data of an audit entry, as values.
pub struct AuditEntryView {
    pub id: Seq<char>,
    pub actor: Seq<char>,
    pub action: Seq<char>,
    pub target: Seq<char>,
    pub category: AuditCategory,
    pub success: bool,
    pub error: Option<Seq<char>>,
    pub metadata: Seq<(Seq<char>, Seq<char>)>,
    pub timestamp: i64,
}

/// The value of an optional string.
pub open spec fn opt_view(s: Option<String>) -> Option<Seq<char>> {
    match s {
        Some(v) => Some(v@),
        None => None,
    }
}

impl View for AuditEntry {
    type V = AuditEntryView;

    open spec fn view(&self) -> AuditEntryView {
        AuditEntryView {
            id: self.id@,
            actor: self.actor@,
            action: self.action@,
            target: self.target@,
            category: self.category,
            success: self.success,
            error: opt_view(self.error),
            metadata: self.metadata@,
            timestamp: self.timestamp,
        }
    }
}

/// An independent copy of an optional string.
pub fn copy_opt_string(s: &Option<String>) -> (r: Option<String>)
    ensures
        r == *s,
{
    match s {
        Some(v) => Some(v.clone()),
        None => None,
    }
}

impl AuditEntry {
    /// Well-formedness: the metadata map has no repeated key.
    pub open spec fn wf(&self) -> bool {
        self.metadata.wf()
    }

    /// A new entry with a fresh random id, stamped with the current time:
    /// category `Other`, successful, no error, no metadata.
    pub fn new(actor: &str, action: &str, target: &str) -> (e: AuditEntry)
        ensures
            e.id@.len() == 36,
            e.actor@ == actor@,
            e.action@ == action@,
            e.target@ == target@,
            e.category == AuditCategory::Other,
            e.success,
            e.error.is_none(),
            e.metadata@.len() == 0,
            e.wf(),
    {
        AuditEntry {
            id: new_uuid(),
            actor: actor.to_owned(),
            action: action.to_owned(),
            target: target.to_owned(),
            category: AuditCategory::Other,
            success: true,
            error: None,
            metadata: StringMap::new(),
            timestamp: now_unix_nanos(),
        }
    }

    /// An independent copy of the entry.
    pub fn duplicate(&self) -> (e: AuditEntry)
        ensures
            e@ == self@,
            e.wf() == self.wf(),
    {
        AuditEntry {
            id: self.id.clone(),
            actor: self.actor.clone(),
            action: self.action.clone(),
            target: self.target.clone(),
            category: self.category,
            success: self.success,
            error: copy_opt_string(&self.error),
            metadata: self.metadata.duplicate(),
            timestamp: self.timestamp,
        }
    }

    /// Set the category.
    pub fn with_category(self, category: AuditCategory) -> (e: AuditEntry)
        ensures
            e == (AuditEntry { category, ..self }),
    {
        let mut e = self;
        e.category = category;
        e
    }

    /// Set success or failure (the error message is left as it is).
    pub fn with_success(self, success: bool) -> (e: AuditEntry)
        ensures
            e == (AuditEntry { success, ..self }),
    {
        let mut e = self;
        e.success = success;
        e
    }

    /// Record an error message; the entry becomes a failure.
    pub fn with_error(self, error: &str) -> (e: AuditEntry)
        ensures
            e.error.is_some(),
            e.error.unwrap()@ == error@,
            !e.success,
            e.id == self.id,
            e.actor == self.actor,
            e.action == self.action,
            e.target == self.target,
            e.category == self.category,
            e.metadata == self.metadata,
            e.timestamp == self.timestamp,
    {
        let mut e = self;
        e.error = Some(error.to_owned());
        e.success = false;
        e
    }

    /// Add (or replace) one metadata value.
    pub fn with_metadata(self, key: &str, value: &str) -> (e: AuditEntry)
        requires
            self.wf(),
        ensures
            e.wf(),
            crate::string_map::lookup(e.metadata@, key@) == Some(value@),
            (forall|i: int| 0 <= i < self.metadata@.len() ==> self.metadata@[i].0 != key@)
                ==> e.metadata@ == self.metadata@.push((key@, value@)),
            (exists|i: int| 0 <= i < self.metadata@.len() && self.metadata@[i].0 == key@)
                ==> e.metadata@ == self.metadata@.update(
                choose|i: int| 0 <= i < self.metadata@.len() && self.metadata@[i].0 == key@,
                (key@, value@),
            ),
            e.id == self.id,
            e.actor == self.actor,
            e.action == self.action,
            e.target == self.target,
            e.category == self.category,
            e.success == self.success,
            e.error == self.error,
            e.timestamp == self.timestamp,
    {
        let mut e = self;
        e.metadata.insert(key.to_owned(), value.to_owned());
        e
    }

    /// Set the timestamp.
    pub fn with_timestamp(self, ts: i64) -> (e: AuditEntry)
        ensures
            e == (AuditEntry { timestamp: ts, ..self }),
    {
        let mut e = self;
        e.timestamp = ts;
        e
    }
}

} // verus!
