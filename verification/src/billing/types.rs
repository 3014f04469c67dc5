//! Billing records: invoices, payments and subscriptions.
//!
//! Every amount is in minor units of an ISO 4217 currency (cents for USD),
//! so no rounding ever happens. Times are unix nanoseconds.

use vstd::prelude::*;
use crate::clock::{add_nanos, clamp_i64, seconds_to_nanos};
use crate::sys::{new_uuid, now_unix_nanos};
use crate::text::{copy_strings, push_str};

verus! {

/// Unique invoice id.
pub type InvoiceId = String;

/// Unique payment id.
pub type PaymentId = String;

/// Unique subscription id.
pub type SubscriptionId = String;

/// Thirty days in nanoseconds: the payment term of a new invoice.
pub const PAYMENT_TERM_NANOS: i64 = 2_592_000_000_000_000;

/// Lifecycle of an invoice.
#[derive(Clone, Copy, Debug, PartialEq, Eq, Hash, Structural)]
pub enum InvoiceStatus {
    /// Created, not yet sent.
    Draft,
    /// Sent, awaiting payment.
    Open,
    /// Paid in full.
    Paid,
    /// Payment overdue.
    PastDue,
    /// Cancelled before payment.
    Void,
    /// Fully refunded.
    Refunded,
}

/// The name of an invoice status.
pub open spec fn invoice_status_name(s: InvoiceStatus) -> Seq<char> {
    match s {
        InvoiceStatus::Draft => "draft"@,
        InvoiceStatus::Open => "open"@,
        InvoiceStatus::Paid => "paid"@,
        InvoiceStatus::PastDue => "past_due"@,
        InvoiceStatus::Void => "void"@,
        InvoiceStatus::Refunded => "refunded"@,
    }
}

impl InvoiceStatus {
    /// The status name (what `Display` prints).
    pub fn to_string(&self) -> (s: String)
        ensures
            s@ == invoice_status_name(*self),
    {
        match self {
            InvoiceStatus::Draft => "draft".to_owned(),
            InvoiceStatus::Open => "open".to_owned(),
            InvoiceStatus::Paid => "paid".to_owned(),
            InvoiceStatus::PastDue => "past_due".to_owned(),
            InvoiceStatus::Void => "void".to_owned(),
            InvoiceStatus::Refunded => "refunded".to_owned(),
        }
    }
}

/// Lifecycle of a payment.
#[derive(Clone, Copy, Debug, PartialEq, Eq, Hash, Structural)]
pub enum PaymentStatus {
    /// Initiated, awaiting confirmation.
    Pending,
    /// Funds received.
    Succeeded,
    /// Failed.
    Failed,
    /// Refunded.
    Refunded,
}

/// The name of a payment status.
pub open spec fn payment_status_name(s: PaymentStatus) -> Seq<char> {
    match s {
        PaymentStatus::Pending => "pending"@,
        PaymentStatus::Succeeded => "succeeded"@,
        PaymentStatus::Failed => "failed"@,
        PaymentStatus::Refunded => "refunded"@,
    }
}

impl PaymentStatus {
    /// The status name (what `Display` prints).
    pub fn to_string(&self) -> (s: String)
        ensures
            s@ == payment_status_name(*self),
    {
        match self {
            PaymentStatus::Pending => "pending".to_owned(),
            PaymentStatus::Succeeded => "succeeded".to_owned(),
            PaymentStatus::Failed => "failed".to_owned(),
            PaymentStatus::Refunded => "refunded".to_owned(),
        }
    }
}

/// Lifecycle of a subscription.
#[derive(Clone, Copy, Debug, PartialEq, Eq, Hash, Structural)]
pub enum SubscriptionStatus {
    /// Active and billing.
    Active,
    /// Not billing, not cancelled.
    Paused,
    /// Payment failed, grace period running.
    PastDue,
    /// Cancelled: no more billing.
    Cancelled,
    /// Cancelled and its period is over.
    Ended,
}

/// The name of a subscription status.
pub open spec fn subscription_status_name(s: SubscriptionStatus) -> Seq<char> {
    match s {
        SubscriptionStatus::Active => "active"@,
        SubscriptionStatus::Paused => "paused"@,
        SubscriptionStatus::PastDue => "past_due"@,
        SubscriptionStatus::Cancelled => "cancelled"@,
        SubscriptionStatus::Ended => "ended"@,
    }
}

impl SubscriptionStatus {
    /// The status name (what `Display` prints).
    pub fn to_string(&self) -> (s: String)
        ensures
            s@ == subscription_status_name(*self),
    {
        match self {
            SubscriptionStatus::Active => "active".to_owned(),
            SubscriptionStatus::Paused => "paused".to_owned(),
            SubscriptionStatus::PastDue => "past_due".to_owned(),
            SubscriptionStatus::Cancelled => "cancelled".to_owned(),
            SubscriptionStatus::Ended => "ended".to_owned(),
        }
    }
}

/// An optional string as an optional value.
pub open spec fn opt_chars(o: Option<String>) -> Option<Seq<char>> {
    match o {
        Some(s) => Some(s@),
        None => None,
    }
}

/// An independent copy of an optional string.
pub fn copy_opt(o: &Option<String>) -> (r: Option<String>)
    ensures
        opt_chars(r) == opt_chars(*o),
{
    match o {
        Some(s) => Some(s.clone()),
        None => None,
    }
}

/// One line of an invoice.
#[derive(Debug)]
pub struct InvoiceItem {
    /// What is billed.
    pub description: String,
    /// The package billed, if any.
    pub package_id: Option<String>,
    /// Quantity.
    pub quantity: u64,
    /// Unit price in minor units.
    pub unit_price_minor: u64,
    /// Line total in minor units.
    pub total_minor: u64,
    /// ISO 4217 currency code.
    pub currency: String,
}

/// An invoice line as values.
pub struct ItemView {
    pub description: Seq<char>,
    pub package_id: Option<Seq<char>>,
    pub quantity: u64,
    pub unit_price_minor: u64,
    pub total_minor: u64,
    pub currency: Seq<char>,
}

impl View for InvoiceItem {
    type V = ItemView;

    open spec fn view(&self) -> ItemView {
        ItemView {
            description: self.description@,
            package_id: opt_chars(self.package_id),
            quantity: self.quantity,
            unit_price_minor: self.unit_price_minor,
            total_minor: self.total_minor,
            currency: self.currency@,
        }
    }
}

impl InvoiceItem {
    /// An independent copy.
    pub fn duplicate(&self) -> (r: InvoiceItem)
        ensures
            r@ == self@,
    {
        InvoiceItem {
            description: self.description.clone(),
            package_id: copy_opt(&self.package_id),
            quantity: self.quantity,
            unit_price_minor: self.unit_price_minor,
            total_minor: self.total_minor,
            currency: self.currency.clone(),
        }
    }
}

/// The views of a list of invoice lines.
pub open spec fn item_views(s: Seq<InvoiceItem>) -> Seq<ItemView> {
    s.map_values(|i: InvoiceItem| i@)
}

/// The sum of the line totals.
pub open spec fn items_total(items: Seq<ItemView>) -> int
    decreases items.len(),
{
    if items.len() == 0 {
        0
    } else {
        items_total(items.drop_last()) + items.last().total_minor
    }
}

fn copy_items(v: &Vec<InvoiceItem>) -> (r: Vec<InvoiceItem>)
    ensures
        item_views(r@) == item_views(v@),
{
    let mut r: Vec<InvoiceItem> = Vec::new();
    let mut i: usize = 0;
    while i < v.len()
        invariant
            i <= v@.len(),
            item_views(r@) == item_views(v@).take(i as int),
        decreases v@.len() - i,
    {
        let x = v[i].duplicate();
        let ghost prev = item_views(r@);
        r.push(x);
        assert(item_views(r@) =~= prev.push(v@[i as int]@));
        assert(item_views(v@).take(i + 1) =~= item_views(v@).take(i as int).push(v@[i as int]@));
        i = i + 1;
    }
    assert(item_views(v@).take(v@.len() as int) =~= item_views(v@));
    r
}

/// An invoice.
#[derive(Debug)]
pub struct Invoice {
    /// Unique id.
    pub id: InvoiceId,
    /// Customer user id.
    pub customer_id: String,
    /// Customer display name at creation.
    pub customer_name: String,
    /// Lines.
    pub items: Vec<InvoiceItem>,
    /// Total in minor units.
    pub total_minor: u64,
    /// ISO 4217 currency code.
    pub currency: String,
    /// Status.
    pub status: InvoiceStatus,
    /// Creation time.
    pub created_at: i64,
    /// Due time.
    pub due_at: i64,
    /// Payment time, once paid.
    pub paid_at: Option<i64>,
    /// The subscription billed, for recurring invoices.
    pub subscription_id: Option<SubscriptionId>,
    /// Payments made against the invoice.
    pub payment_ids: Vec<PaymentId>,
}

/// An invoice as values.
pub struct InvoiceView {
    pub id: Seq<char>,
    pub customer_id: Seq<char>,
    pub customer_name: Seq<char>,
    pub items: Seq<ItemView>,
    pub total_minor: u64,
    pub currency: Seq<char>,
    pub status: InvoiceStatus,
    pub created_at: i64,
    pub due_at: i64,
    pub paid_at: Option<i64>,
    pub subscription_id: Option<Seq<char>>,
    pub payment_ids: Seq<String>,
}

impl View for Invoice {
    type V = InvoiceView;

    open spec fn view(&self) -> InvoiceView {
        InvoiceView {
            id: self.id@,
            customer_id: self.customer_id@,
            customer_name: self.customer_name@,
            items: item_views(self.items@),
            total_minor: self.total_minor,
            currency: self.currency@,
            status: self.status,
            created_at: self.created_at,
            due_at: self.due_at,
            paid_at: self.paid_at,
            subscription_id: opt_chars(self.subscription_id),
            payment_ids: self.payment_ids@,
        }
    }
}

/// `n` is `o` with another status and payment time.
pub open spec fn invoice_restated(o: InvoiceView, n: InvoiceView, status: InvoiceStatus) -> bool {
    &&& n.id == o.id && n.customer_id == o.customer_id && n.customer_name == o.customer_name
    &&& n.items == o.items && n.total_minor == o.total_minor && n.currency == o.currency
    &&& n.created_at == o.created_at && n.due_at == o.due_at
    &&& n.subscription_id == o.subscription_id && n.payment_ids == o.payment_ids
    &&& n.status == status
}

impl Invoice {
    /// A draft invoice with a fresh id, created now and due in thirty days,
    /// with no lines.
    pub fn new_draft(customer_id: &str, customer_name: &str, currency: &str) -> (inv: Invoice)
        ensures
            inv.id@.len() == 36,
            inv.customer_id@ == customer_id@,
            inv.customer_name@ == customer_name@,
            inv.items@.len() == 0,
            inv.total_minor == 0,
            inv.currency@ == currency@,
            inv.status == InvoiceStatus::Draft,
            inv.due_at == clamp_i64(inv.created_at + PAYMENT_TERM_NANOS),
            inv.paid_at is None,
            inv.subscription_id is None,
            inv.payment_ids@.len() == 0,
    {
        let now = now_unix_nanos();
        Invoice {
            id: new_uuid(),
            customer_id: customer_id.to_owned(),
            customer_name: customer_name.to_owned(),
            items: Vec::new(),
            total_minor: 0,
            currency: currency.to_owned(),
            status: InvoiceStatus::Draft,
            created_at: now,
            due_at: add_nanos(now, PAYMENT_TERM_NANOS),
            paid_at: None,
            subscription_id: None,
            payment_ids: Vec::new(),
        }
    }

    /// An independent copy.
    pub fn duplicate(&self) -> (r: Invoice)
        ensures
            r@ == self@,
    {
        Invoice {
            id: self.id.clone(),
            customer_id: self.customer_id.clone(),
            customer_name: self.customer_name.clone(),
            items: copy_items(&self.items),
            total_minor: self.total_minor,
            currency: self.currency.clone(),
            status: self.status,
            created_at: self.created_at,
            due_at: self.due_at,
            paid_at: self.paid_at,
            subscription_id: copy_opt(&self.subscription_id),
            payment_ids: copy_strings(&self.payment_ids),
        }
    }

    /// Add a line; the total grows by the line total, so a total that was
    /// the sum of the lines stays the sum of the lines.
    pub fn add_item(&mut self, item: InvoiceItem)
        requires
            old(self).total_minor + item.total_minor <= u64::MAX,
        ensures
            final(self).items@ == old(self).items@.push(item),
            final(self).total_minor == old(self).total_minor + item.total_minor,
            old(self).total_minor == items_total(old(self)@.items) ==> final(self).total_minor == items_total(
                final(self)@.items,
            ),
            final(self).id == old(self).id,
            final(self).customer_id == old(self).customer_id,
            final(self).customer_name == old(self).customer_name,
            final(self).currency == old(self).currency,
            final(self).status == old(self).status,
            final(self).created_at == old(self).created_at,
            final(self).due_at == old(self).due_at,
            final(self).paid_at == old(self).paid_at,
            final(self).subscription_id == old(self).subscription_id,
            final(self).payment_ids == old(self).payment_ids,
    {
        let ghost old_items = self@.items;
        let ghost iv = item@;
        self.total_minor = self.total_minor + item.total_minor;
        self.items.push(item);
        proof {
            assert(self@.items =~= old_items.push(iv));
            assert(self@.items.drop_last() =~= old_items);
        }
    }

    /// Mark the invoice open (sent to the customer).
    pub fn mark_open(&mut self)
        ensures
            invoice_restated(old(self)@, final(self)@, InvoiceStatus::Open),
            final(self).paid_at == old(self).paid_at,
    {
        self.status = InvoiceStatus::Open;
    }

    /// Mark the invoice paid, now.
    pub fn mark_paid(&mut self)
        ensures
            invoice_restated(old(self)@, final(self)@, InvoiceStatus::Paid),
            final(self).paid_at is Some,
    {
        self.status = InvoiceStatus::Paid;
        self.paid_at = Some(now_unix_nanos());
    }

    /// Void the invoice.
    pub fn void(&mut self)
        ensures
            invoice_restated(old(self)@, final(self)@, InvoiceStatus::Void),
            final(self).paid_at == old(self).paid_at,
    {
        self.status = InvoiceStatus::Void;
    }
}

/// A payment against an invoice.
#[derive(Debug)]
pub struct Payment {
    /// Unique id.
    pub id: PaymentId,
    /// The invoice paid.
    pub invoice_id: InvoiceId,
    /// Customer user id.
    pub customer_id: String,
    /// Amount in minor units.
    pub amount_minor: u64,
    /// ISO 4217 currency code.
    pub currency: String,
    /// Status.
    pub status: PaymentStatus,
    /// Method (e.g. `card`, `bank_transfer`, `credit`).
    pub method: String,
    /// Creation time.
    pub created_at: i64,
    /// Processing time, once processed.
    pub processed_at: Option<i64>,
    /// Why it failed, if it did.
    pub failure_reason: Option<String>,
}

/// A payment as values.
pub struct PaymentView {
    pub id: Seq<char>,
    pub invoice_id: Seq<char>,
    pub customer_id: Seq<char>,
    pub amount_minor: u64,
    pub currency: Seq<char>,
    pub status: PaymentStatus,
    pub method: Seq<char>,
    pub created_at: i64,
    pub processed_at: Option<i64>,
    pub failure_reason: Option<Seq<char>>,
}

impl View for Payment {
    type V = PaymentView;

    open spec fn view(&self) -> PaymentView {
        PaymentView {
            id: self.id@,
            invoice_id: self.invoice_id@,
            customer_id: self.customer_id@,
            amount_minor: self.amount_minor,
            currency: self.currency@,
            status: self.status,
            method: self.method@,
            created_at: self.created_at,
            processed_at: self.processed_at,
            failure_reason: opt_chars(self.failure_reason),
        }
    }
}

/// `n` is `o` processed with a new status and reason.
pub open spec fn payment_processed(o: PaymentView, n: PaymentView, status: PaymentStatus, reason: Option<Seq<char>>) -> bool {
    &&& n.id == o.id && n.invoice_id == o.invoice_id && n.customer_id == o.customer_id
    &&& n.amount_minor == o.amount_minor && n.currency == o.currency && n.method == o.method
    &&& n.created_at == o.created_at
    &&& n.status == status
    &&& n.processed_at is Some
    &&& n.failure_reason == reason
}

impl Payment {
    /// A pending payment with a fresh id, created now.
    pub fn new_pending(invoice_id: &str, customer_id: &str, amount_minor: u64, currency: &str, method: &str) -> (p: Payment)
        ensures
            p.id@.len() == 36,
            p.invoice_id@ == invoice_id@,
            p.customer_id@ == customer_id@,
            p.amount_minor == amount_minor,
            p.currency@ == currency@,
            p.status == PaymentStatus::Pending,
            p.method@ == method@,
            p.processed_at is None,
            p.failure_reason is None,
    {
        Payment {
            id: new_uuid(),
            invoice_id: invoice_id.to_owned(),
            customer_id: customer_id.to_owned(),
            amount_minor,
            currency: currency.to_owned(),
            status: PaymentStatus::Pending,
            method: method.to_owned(),
            created_at: now_unix_nanos(),
            processed_at: None,
            failure_reason: None,
        }
    }

    /// An independent copy.
    pub fn duplicate(&self) -> (r: Payment)
        ensures
            r@ == self@,
    {
        Payment {
            id: self.id.clone(),
            invoice_id: self.invoice_id.clone(),
            customer_id: self.customer_id.clone(),
            amount_minor: self.amount_minor,
            currency: self.currency.clone(),
            status: self.status,
            method: self.method.clone(),
            created_at: self.created_at,
            processed_at: self.processed_at,
            failure_reason: copy_opt(&self.failure_reason),
        }
    }

    /// Mark the payment succeeded, processed now.
    pub fn succeed(&mut self)
        ensures
            payment_processed(old(self)@, final(self)@, PaymentStatus::Succeeded, old(self)@.failure_reason),
    {
        self.status = PaymentStatus::Succeeded;
        self.processed_at = Some(now_unix_nanos());
    }

    /// Mark the payment failed, processed now, for this reason.
    pub fn fail(&mut self, reason: &str)
        ensures
            payment_processed(old(self)@, final(self)@, PaymentStatus::Failed, Some(reason@)),
    {
        self.status = PaymentStatus::Failed;
        self.processed_at = Some(now_unix_nanos());
        self.failure_reason = Some(reason.to_owned());
    }
}

/// A subscription (recurring billing).
#[derive(Debug)]
pub struct Subscription {
    /// Unique id.
    pub id: SubscriptionId,
    /// Customer user id.
    pub customer_id: String,
    /// The package subscribed to.
    pub package_id: String,
    /// Price per period in minor units.
    pub price_minor: u64,
    /// ISO 4217 currency code.
    pub currency: String,
    /// Billing period in seconds (2592000 for monthly).
    pub period_seconds: u64,
    /// Status.
    pub status: SubscriptionStatus,
    /// Start time.
    pub started_at: i64,
    /// End of the current period.
    pub current_period_end: i64,
    /// Cancellation time, once cancelled.
    pub cancelled_at: Option<i64>,
}

/// A subscription as values.
pub struct SubscriptionView {
    pub id: Seq<char>,
    pub customer_id: Seq<char>,
    pub package_id: Seq<char>,
    pub price_minor: u64,
    pub currency: Seq<char>,
    pub period_seconds: u64,
    pub status: SubscriptionStatus,
    pub started_at: i64,
    pub current_period_end: i64,
    pub cancelled_at: Option<i64>,
}

impl View for Subscription {
    type V = SubscriptionView;

    open spec fn view(&self) -> SubscriptionView {
        SubscriptionView {
            id: self.id@,
            customer_id: self.customer_id@,
            package_id: self.package_id@,
            price_minor: self.price_minor,
            currency: self.currency@,
            period_seconds: self.period_seconds,
            status: self.status,
            started_at: self.started_at,
            current_period_end: self.current_period_end,
            cancelled_at: self.cancelled_at,
        }
    }
}

/// A period in nanoseconds, clamped to the range of `i64`.
pub open spec fn period_nanos(period_seconds: u64) -> i64 {
    clamp_i64(period_seconds * 1_000_000_000)
}

/// Whether a subscription needs renewal at time `now`: it is active and
/// its period has ended.
pub open spec fn due_for_renewal(s: SubscriptionView, now: i64) -> bool {
    now >= s.current_period_end && s.status == SubscriptionStatus::Active
}

/// The end of the next period when renewing at `now`: a period after
/// `now` if the current one has already ended, else a period after the
/// current end.
pub open spec fn renewed_end(s: SubscriptionView, now: i64) -> i64 {
    if s.current_period_end < now {
        clamp_i64(now + period_nanos(s.period_seconds))
    } else {
        clamp_i64(s.current_period_end + period_nanos(s.period_seconds))
    }
}

/// `n` is `o` with another status, period end and cancellation time.
pub open spec fn subscription_kept(o: SubscriptionView, n: SubscriptionView) -> bool {
    &&& n.id == o.id && n.customer_id == o.customer_id && n.package_id == o.package_id
    &&& n.price_minor == o.price_minor && n.currency == o.currency && n.period_seconds == o.period_seconds
    &&& n.started_at == o.started_at
}

/// The description of the line billing one period of a package.
pub open spec fn period_description(package_id: Seq<char>) -> Seq<char> {
    "Subscription: "@ + package_id + " (1 period)"@
}

/// The invoice for one period of `s`: open, one line at the period price,
/// linked to the subscription.
pub open spec fn period_invoice(s: SubscriptionView, customer_name: Seq<char>, inv: InvoiceView) -> bool {
    &&& inv.id.len() == 36
    &&& inv.customer_id == s.customer_id
    &&& inv.customer_name == customer_name
    &&& inv.currency == s.currency
    &&& inv.status == InvoiceStatus::Open
    &&& inv.subscription_id == Some(s.id)
    &&& inv.total_minor == s.price_minor
    &&& inv.items.len() == 1
    &&& inv.items[0] == (ItemView {
        description: period_description(s.package_id),
        package_id: Some(s.package_id),
        quantity: 1,
        unit_price_minor: s.price_minor,
        total_minor: s.price_minor,
        currency: s.currency,
    })
    &&& inv.paid_at is None
    &&& inv.payment_ids.len() == 0
}

impl Subscription {
    /// An active subscription with a fresh id, started now, whose first
    /// period ends a period from now.
    pub fn new_active(customer_id: &str, package_id: &str, price_minor: u64, currency: &str, period_seconds: u64) -> (s: Subscription)
        ensures
            s.id@.len() == 36,
            s.customer_id@ == customer_id@,
            s.package_id@ == package_id@,
            s.price_minor == price_minor,
            s.currency@ == currency@,
            s.period_seconds == period_seconds,
            s.status == SubscriptionStatus::Active,
            s.current_period_end == clamp_i64(s.started_at + period_nanos(period_seconds)),
            s.cancelled_at is None,
    {
        let now = now_unix_nanos();
        Subscription {
            id: new_uuid(),
            customer_id: customer_id.to_owned(),
            package_id: package_id.to_owned(),
            price_minor,
            currency: currency.to_owned(),
            period_seconds,
            status: SubscriptionStatus::Active,
            started_at: now,
            current_period_end: add_nanos(now, seconds_to_nanos(period_seconds)),
            cancelled_at: None,
        }
    }

    /// An independent copy.
    pub fn duplicate(&self) -> (r: Subscription)
        ensures
            r@ == self@,
    {
        Subscription {
            id: self.id.clone(),
            customer_id: self.customer_id.clone(),
            package_id: self.package_id.clone(),
            price_minor: self.price_minor,
            currency: self.currency.clone(),
            period_seconds: self.period_seconds,
            status: self.status,
            started_at: self.started_at,
            current_period_end: self.current_period_end,
            cancelled_at: self.cancelled_at,
        }
    }

    /// Whether the subscription needs renewal at time `now`.
    pub fn needs_renewal_at(&self, now: i64) -> (b: bool)
        ensures
            b == due_for_renewal(self@, now),
    {
        now >= self.current_period_end && self.status == SubscriptionStatus::Active
    }

    /// Whether the subscription needs renewal now.
    pub fn needs_renewal(&self) -> (b: bool)
        ensures
            exists|now: i64| b == #[trigger] due_for_renewal(self@, now),
    {
        self.needs_renewal_at(now_unix_nanos())
    }

    /// Renew for the next period at time `now`.
    pub fn renew_at(&mut self, now: i64)
        ensures
            subscription_kept(old(self)@, final(self)@),
            final(self).status == old(self).status,
            final(self).cancelled_at == old(self).cancelled_at,
            final(self).current_period_end == renewed_end(old(self)@, now),
    {
        let period = seconds_to_nanos(self.period_seconds);
        if self.current_period_end < now {
            self.current_period_end = add_nanos(now, period);
        } else {
            self.current_period_end = add_nanos(self.current_period_end, period);
        }
    }

    /// Renew for the next period, now.
    pub fn renew(&mut self)
        ensures
            subscription_kept(old(self)@, final(self)@),
            final(self).status == old(self).status,
            final(self).cancelled_at == old(self).cancelled_at,
            exists|now: i64| final(self).current_period_end == #[trigger] renewed_end(old(self)@, now),
    {
        let now = now_unix_nanos();
        self.renew_at(now);
    }

    /// Cancel the subscription, now (it runs to the end of its period).
    pub fn cancel(&mut self)
        ensures
            subscription_kept(old(self)@, final(self)@),
            final(self).current_period_end == old(self).current_period_end,
            final(self).status == SubscriptionStatus::Cancelled,
            final(self).cancelled_at is Some,
    {
        self.status = SubscriptionStatus::Cancelled;
        self.cancelled_at = Some(now_unix_nanos());
    }

    /// The open invoice for the current period.
    pub fn generate_invoice(&self, customer_name: &str) -> (inv: Invoice)
        ensures
            period_invoice(self@, customer_name@, inv@),
            inv.due_at == clamp_i64(inv.created_at + PAYMENT_TERM_NANOS),
    {
        let mut invoice = Invoice::new_draft(self.customer_id.as_str(), customer_name, self.currency.as_str());
        invoice.subscription_id = Some(self.id.clone());
        let mut description = "Subscription: ".to_owned();
        push_str(&mut description, self.package_id.as_str());
        push_str(&mut description, " (1 period)");
        let item = InvoiceItem {
            description,
            package_id: Some(self.package_id.clone()),
            quantity: 1,
            unit_price_minor: self.price_minor,
            total_minor: self.price_minor,
            currency: self.currency.clone(),
        };
        let ghost iv = item@;
        invoice.add_item(item);
        invoice.mark_open();
        proof {
            assert(invoice@.items =~= seq![iv]);
        }
        invoice
    }
}

} // verus!
