//! The GraphQL API's objects and what its resolvers compute from the core.

use vstd::prelude::*;
use crate::auth::users::User as AccountUser;
use crate::billing::types::{Invoice as BillingInvoice, invoice_status_name};
use crate::platform::events::{Event as LogEvent, EventPayload, EventView, PayloadView, event_views};
use crate::platform::kernel::NexoraCore;
use crate::sys::{new_uuid, now_unix_nanos};
use crate::text::{copy_strings, decimal, decimal_text, push_str};

verus! {

/// A user.
#[derive(Debug, Clone)]
pub struct User {
    /// Id.
    pub id: String,
    /// User name.
    pub username: String,
    /// E-mail address.
    pub email: Option<String>,
    /// Roles.
    pub roles: Vec<String>,
    /// Creation time (unix nanoseconds).
    pub created_at: i64,
    /// Whether the account is active.
    pub active: bool,
}

impl User {
    /// The API object of an account.
    pub fn from_account(u: &AccountUser) -> (r: User)
        ensures
            r.id@ == u.id@,
            r.username@ == u.username@,
            r.email == u.email,
            r.roles@ == u.roles@,
            r.created_at == u.created_at,
            r.active == u.active,
    {
        User {
            id: u.id.clone(),
            username: u.username.clone(),
            email: u.email.clone(),
            roles: copy_strings(&u.roles),
            created_at: u.created_at,
            active: u.active,
        }
    }
}

/// A marketplace package.
#[derive(Debug, Clone)]
pub struct Package {
    /// Id.
    pub id: String,
    /// Name.
    pub name: String,
    /// Version (`major.minor.patch`).
    pub version: String,
    /// Description.
    pub description: String,
    /// Owner's name.
    pub owner_name: String,
    /// Installs ever.
    pub install_count: i64,
    /// Installs now active.
    pub active_install_count: i64,
    /// Whether it is installed here.
    pub installed: bool,
    /// Integrity hash.
    pub integrity_hash: String,
    /// Publication time (unix nanoseconds).
    pub published_at: i64,
}

/// An invoice.
#[derive(Debug, Clone)]
pub struct Invoice {
    /// Id.
    pub id: String,
    /// Customer id.
    pub customer_id: String,
    /// Customer name.
    pub customer_name: String,
    /// Total in minor units.
    pub total_minor: i64,
    /// Currency.
    pub currency: String,
    /// Status name.
    pub status: String,
    /// Creation time (unix nanoseconds).
    pub created_at: i64,
    /// Due time (unix nanoseconds).
    pub due_at: i64,
    /// Payment time (unix nanoseconds).
    pub paid_at: Option<i64>,
}

impl Invoice {
    /// The API object of an invoice; a total beyond `i64::MAX` wraps as
    /// a cast does.
    pub fn from_invoice(i: &BillingInvoice) -> (r: Invoice)
        ensures
            r.id@ == i.id@,
            r.customer_id@ == i.customer_id@,
            r.customer_name@ == i.customer_name@,
            r.total_minor == i.total_minor as i64,
            r.currency@ == i.currency@,
            r.status@ == invoice_status_name(i.status),
            r.created_at == i.created_at,
            r.due_at == i.due_at,
            r.paid_at == i.paid_at,
    {
        Invoice {
            id: i.id.clone(),
            customer_id: i.customer_id.clone(),
            customer_name: i.customer_name.clone(),
            total_minor: i.total_minor as i64,
            currency: i.currency.clone(),
            status: i.status.to_string(),
            created_at: i.created_at,
            due_at: i.due_at,
            paid_at: i.paid_at,
        }
    }
}

/// An event.
#[derive(Debug, Clone)]
pub struct Event {
    /// Id.
    pub id: i64,
    /// Name.
    pub name: String,
    /// Payload as text.
    pub payload: String,
    /// Time (unix nanoseconds).
    pub timestamp: i64,
}

/// The text shown for a payload: the text itself, `<n bytes>` for bytes,
/// nothing for an empty payload.
pub open spec fn payload_text(p: PayloadView) -> Seq<char> {
    match p {
        PayloadView::Text(s) => s,
        PayloadView::Bytes(b) => "<"@ + decimal_text(b.len()) + " bytes>"@,
        PayloadView::Empty => Seq::empty(),
    }
}

/// The API object of a logged event (an id beyond `i64::MAX` wraps as a
/// cast does).
pub open spec fn event_object(e: EventView) -> (i64, Seq<char>, Seq<char>, i64) {
    (e.id as i64, e.name, payload_text(e.payload), e.timestamp)
}

impl Event {
    /// The API object of a logged event.
    pub fn from_event(e: &LogEvent) -> (r: Event)
        ensures
            (r.id, r.name@, r.payload@, r.timestamp) == event_object(e@),
    {
        let payload = match &e.payload {
            EventPayload::Text(s) => s.clone(),
            EventPayload::Bytes(b) => {
                let mut s = "<".to_owned();
                let n = decimal(b.len() as u64);
                push_str(&mut s, n.as_str());
                push_str(&mut s, " bytes>");
                s
            },
            EventPayload::Empty => String::new(),
        };
        Event { id: e.id as i64, name: e.name.clone(), payload, timestamp: e.timestamp }
    }
}

/// The platform's health.
#[derive(Debug, Clone)]
pub struct HealthStatus {
    /// Always `true` when the API answers.
    pub healthy: bool,
    /// Installed modules.
    pub modules_total: usize,
    /// Active modules (counted as installed modules).
    pub modules_active: usize,
    /// Events published.
    pub events_published: i64,
    /// Uptime in seconds (not tracked: 0).
    pub uptime_seconds: i64,
}

/// Input of a notification.
#[derive(Debug, Clone)]
pub struct CreateNotificationInput {
    /// Recipient.
    pub user_id: String,
    /// Title.
    pub title: String,
    /// Body.
    pub body: String,
    /// Link, if any.
    pub action_url: Option<String>,
}

/// An in-app notification.
#[derive(Debug, Clone)]
pub struct InAppNotification {
    /// Id.
    pub id: String,
    /// Recipient.
    pub user_id: String,
    /// Title.
    pub title: String,
    /// Body.
    pub body: String,
    /// Link, if any.
    pub action_url: Option<String>,
    /// Creation time (unix nanoseconds).
    pub created_at: i64,
    /// Reading time (unix nanoseconds).
    pub read_at: Option<i64>,
}

/// The root query.
#[derive(Debug, Clone, Copy)]
pub struct Query;

/// The root mutation.
#[derive(Debug, Clone, Copy)]
pub struct Mutation;

/// The root subscription.
#[derive(Debug, Clone, Copy)]
pub struct SubscriptionRoot;

/// The first event id replayed for a requested `from_id`: it, or 1 when it
/// is not positive.
pub open spec fn replay_start(from_id: i64) -> u64 {
    if from_id > 0 {
        from_id as u64
    } else {
        1
    }
}

/// The number of events returned for a requested `limit`: between 1 and
/// 1000.
pub open spec fn replay_limit(limit: i64) -> int {
    if limit < 1 {
        1
    } else if limit > 1000 {
        1000
    } else {
        limit as int
    }
}

impl Query {
    /// The current user (not known to the API yet: none).
    pub fn me(&self) -> (r: Option<User>)
        ensures
            r is None,
    {
        None
    }

    /// A user by id (not served by the API yet: none).
    pub fn user(&self, id: &str) -> (r: Option<User>)
        ensures
            r is None,
    {
        None
    }

    /// A page of users (not served by the API yet: none).
    pub fn users(&self, limit: i64, offset: i64) -> (r: Vec<User>)
        ensures
            r@.len() == 0,
    {
        Vec::new()
    }

    /// A package (not served by the API yet: none).
    pub fn package(&self, id: &str, version: Option<String>) -> (r: Option<Package>)
        ensures
            r is None,
    {
        None
    }

    /// Packages (not served by the API yet: none).
    pub fn packages(&self, limit: i64) -> (r: Vec<Package>)
        ensures
            r@.len() == 0,
    {
        Vec::new()
    }

    /// An invoice (not served by the API yet: none).
    pub fn invoice(&self, id: &str) -> (r: Option<Invoice>)
        ensures
            r is None,
    {
        None
    }

    /// A customer's invoices (not served by the API yet: none).
    pub fn invoices(&self, customer_id: &str, limit: i64) -> (r: Vec<Invoice>)
        ensures
            r@.len() == 0,
    {
        Vec::new()
    }

    /// The logged events from `from_id` on (from the first when it is not
    /// positive), at most `limit` of them (clamped to 1..=1000).
    pub fn events(&self, core: &NexoraCore, from_id: i64, limit: i64) -> (r: Vec<Event>)
        requires
            core.events.wf(),
        ensures
            ({
                let all = core.events.events().filter(|e: EventView| e.id >= replay_start(from_id));
                let n = if all.len() < replay_limit(limit) {
                    all.len() as int
                } else {
                    replay_limit(limit)
                };
                &&& r@.len() == n
                &&& forall|i: int| 0 <= i < n ==> (#[trigger] r@[i].id, r@[i].name@, r@[i].payload@, r@[i].timestamp)
                    == event_object(all[i])
            }),
    {
        let from: u64 = if from_id > 0 {
            from_id as u64
        } else {
            1
        };
        let lim: usize = if limit < 1 {
            1
        } else if limit > 1000 {
            1000
        } else {
            limit as usize
        };
        let replayed = core.events.replay(from);
        let ghost all = event_views(replayed@);
        let mut out: Vec<Event> = Vec::new();
        let mut i: usize = 0;
        while i < replayed.len() && i < lim
            invariant
                i <= replayed@.len(),
                i <= lim,
                all == event_views(replayed@),
                out@.len() == i,
                forall|j: int| 0 <= j < i ==> (#[trigger] out@[j].id, out@[j].name@, out@[j].payload@, out@[j].timestamp)
                    == event_object(all[j]),
            decreases replayed@.len() - i,
        {
            let e = Event::from_event(&replayed[i]);
            assert(all[i as int] == replayed@[i as int]@);
            out.push(e);
            i = i + 1;
        }
        out
    }

    /// The platform's health.
    pub fn health(&self, core: &NexoraCore) -> (r: HealthStatus)
        requires
            core.wf(),
        ensures
            r.healthy,
            r.modules_total == core.module_manager().modules().len(),
            r.modules_active == r.modules_total,
            r.events_published == core.events.events().len() as i64,
            r.uptime_seconds == 0,
    {
        let n = core.modules().module_count();
        HealthStatus {
            healthy: true,
            modules_total: n,
            modules_active: n,
            events_published: core.events.published_count() as i64,
            uptime_seconds: 0,
        }
    }
}

impl Mutation {
    /// Create an in-app notification at time `now`; `notification.created`
    /// is published with the recipient.
    pub fn create_notification_at(&self, core: &mut NexoraCore, input: CreateNotificationInput, now: i64) -> (r:
        InAppNotification)
        requires
            old(core).wf(),
            old(core).events.events().len() < u64::MAX - 1,
        ensures
            final(core).wf(),
            final(core).events.events().len() == old(core).events.events().len() + 1,
            final(core).events.events().drop_last() == old(core).events.events(),
            final(core).events.events().last().name == "notification.created"@,
            final(core).events.events().last().payload == PayloadView::Text(input.user_id@),
            final(core).module_manager() == old(core).module_manager(),
            r.id@.len() == 36,
            r.user_id@ == input.user_id@,
            r.title@ == input.title@,
            r.body@ == input.body@,
            r.action_url == input.action_url,
            r.created_at == now,
            r.read_at is None,
    {
        core.events.publish("notification.created", input.user_id.as_str());
        InAppNotification {
            id: new_uuid(),
            user_id: input.user_id,
            title: input.title,
            body: input.body,
            action_url: input.action_url,
            created_at: now,
            read_at: None,
        }
    }

    /// Create an in-app notification now.
    pub fn create_notification(&self, core: &mut NexoraCore, input: CreateNotificationInput) -> (r: InAppNotification)
        requires
            old(core).wf(),
            old(core).events.events().len() < u64::MAX - 1,
        ensures
            final(core).wf(),
            final(core).events.events().len() == old(core).events.events().len() + 1,
            r.user_id@ == input.user_id@,
            r.read_at is None,
    {
        self.create_notification_at(core, input, now_unix_nanos())
    }

    /// Mark a notification read (always acknowledged).
    pub fn mark_notification_read(&self, id: &str) -> (b: bool)
        ensures
            b,
    {
        true
    }

    /// Revoke a session (always acknowledged).
    pub fn revoke_session(&self, id: &str) -> (b: bool)
        ensures
            b,
    {
        true
    }
}

} // verus!
