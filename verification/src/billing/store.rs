//! The billing store: invoices, payments and subscriptions by id, with the
//! invoices and subscriptions of each customer in creation order.
//!
//! Every state change is published on the attached event bus:
//! `invoice.created`, `invoice.paid`, `invoice.voided`, `payment.created`,
//! `payment.succeeded`, `payment.failed`, `subscription.created`,
//! `subscription.renewed` and `subscription.cancelled`.

use vstd::prelude::*;
use crate::billing::types::{
    Invoice, InvoiceId, InvoiceStatus, InvoiceView, Payment, PaymentId, PaymentStatus, PaymentView, Subscription,
    SubscriptionId, SubscriptionStatus, SubscriptionView, due_for_renewal, invoice_restated, payment_processed,
    period_invoice, renewed_end, subscription_kept,
};
use crate::platform::events::{EventBus, bus_wf, emit_on, emitted};
use crate::sys::now_unix_nanos;
use crate::table::{Record, Table, models, picked};
use crate::seq_facts::{lemma_filter_take_step, lemma_filter_take_zero, lemma_take_full};
use crate::index::{CustomerIds, CustomerIdsView, ids_for, ids_of, index_push, record_id};

verus! {

/// Error of a billing operation.
#[derive(Debug)]
pub enum BillingError {
    /// No invoice has this id.
    InvoiceNotFound(InvoiceId),
    /// No payment has this id.
    PaymentNotFound(PaymentId),
    /// No subscription has this id.
    SubscriptionNotFound(SubscriptionId),
    /// The invoice is in the wrong state for the operation.
    InvoiceWrongState {
        /// Invoice id.
        id: InvoiceId,
        /// Current state.
        state: InvoiceStatus,
        /// Expected state.
        expected: InvoiceStatus,
    },
    /// The payment is in the wrong state for the operation.
    PaymentWrongState {
        /// Payment id.
        id: PaymentId,
        /// Current state.
        state: PaymentStatus,
        /// Expected state.
        expected: PaymentStatus,
    },
    /// The subscription is in the wrong state for the operation.
    SubscriptionWrongState {
        /// Subscription id.
        id: SubscriptionId,
        /// Current state.
        state: SubscriptionStatus,
        /// Expected state.
        expected: SubscriptionStatus,
    },
    /// The payment amount is not the invoice total.
    AmountMismatch {
        /// Amount paid.
        paid: u64,
        /// Invoice total.
        expected: u64,
    },
}

impl Record for Invoice {
    type Model = InvoiceView;

    open spec fn model(&self) -> InvoiceView {
        self@
    }

    open spec fn model_key(m: InvoiceView) -> Seq<char> {
        m.id
    }

    fn key(&self) -> (k: &str) {
        self.id.as_str()
    }

    fn copy(&self) -> (r: Invoice) {
        self.duplicate()
    }
}

impl Record for Payment {
    type Model = PaymentView;

    open spec fn model(&self) -> PaymentView {
        self@
    }

    open spec fn model_key(m: PaymentView) -> Seq<char> {
        m.id
    }

    fn key(&self) -> (k: &str) {
        self.id.as_str()
    }

    fn copy(&self) -> (r: Payment) {
        self.duplicate()
    }
}

impl Record for Subscription {
    type Model = SubscriptionView;

    open spec fn model(&self) -> SubscriptionView {
        self@
    }

    open spec fn model_key(m: SubscriptionView) -> Seq<char> {
        m.id
    }

    fn key(&self) -> (k: &str) {
        self.id.as_str()
    }

    fn copy(&self) -> (r: Subscription) {
        self.duplicate()
    }
}

/// `inv` is `given` as stored: only the creation time is set anew.
pub open spec fn invoice_stored(given: InvoiceView, inv: InvoiceView) -> bool {
    &&& inv.id == given.id && inv.customer_id == given.customer_id && inv.customer_name == given.customer_name
    &&& inv.items == given.items && inv.total_minor == given.total_minor && inv.currency == given.currency
    &&& inv.status == given.status && inv.due_at == given.due_at && inv.paid_at == given.paid_at
    &&& inv.subscription_id == given.subscription_id && inv.payment_ids == given.payment_ids
}

/// `n` is `o` with one more payment linked.
pub open spec fn with_payment(o: InvoiceView, n: InvoiceView, payment_id: Seq<char>) -> bool {
    &&& n.id == o.id && n.customer_id == o.customer_id && n.customer_name == o.customer_name
    &&& n.items == o.items && n.total_minor == o.total_minor && n.currency == o.currency
    &&& n.status == o.status && n.created_at == o.created_at && n.due_at == o.due_at && n.paid_at == o.paid_at
    &&& n.subscription_id == o.subscription_id
    &&& n.payment_ids.map_values(|s: String| s@) == o.payment_ids.map_values(|s: String| s@).push(payment_id)
}

/// `s` renewed at time `now`.
pub open spec fn renewed(s: SubscriptionView, now: i64) -> SubscriptionView {
    SubscriptionView {
        id: s.id,
        customer_id: s.customer_id,
        package_id: s.package_id,
        price_minor: s.price_minor,
        currency: s.currency,
        period_seconds: s.period_seconds,
        status: s.status,
        started_at: s.started_at,
        current_period_end: renewed_end(s, now),
        cancelled_at: s.cancelled_at,
    }
}

/// `s` after the renewal pass at time `now`.
pub open spec fn renew_if_due(s: SubscriptionView, now: i64) -> SubscriptionView {
    if due_for_renewal(s, now) {
        renewed(s, now)
    } else {
        s
    }
}

/// The predicate "needs renewal at `now`".
pub open spec fn due_at(now: i64) -> spec_fn(SubscriptionView) -> bool {
    |s: SubscriptionView| due_for_renewal(s, now)
}

/// The subscriptions of `subs` that need renewal at `now`, in order.
pub open spec fn due_subscriptions(subs: Seq<SubscriptionView>, now: i64) -> Seq<SubscriptionView> {
    subs.filter(due_at(now))
}

/// The subscriptions after the renewal pass at `now`.
pub open spec fn renewal_pass(subs: Seq<SubscriptionView>, now: i64) -> Seq<SubscriptionView> {
    subs.map_values(|s: SubscriptionView| renew_if_due(s, now))
}

/// The billing store.
#[derive(Debug)]
pub struct BillingStore {
    invoices: Table<Invoice>,
    payments: Table<Payment>,
    subscriptions: Table<Subscription>,
    invoices_by_customer: Table<CustomerIds>,
    subs_by_customer: Table<CustomerIds>,
    event_bus: Option<EventBus>,
}

impl Default for BillingStore {
    fn default() -> (s: BillingStore)
        ensures
            s.wf(),
            s.invoices() == Map::<Seq<char>, InvoiceView>::empty(),
            s.payments() == Map::<Seq<char>, PaymentView>::empty(),
            s.subscriptions() == Map::<Seq<char>, SubscriptionView>::empty(),
            s.event_bus() is None,
    {
        BillingStore::new()
    }
}

impl BillingStore {
    /// The invoices by id.
    pub open spec fn invoices(&self) -> Map<Seq<char>, InvoiceView> {
        self.invoice_table().map()
    }

    /// The payments by id.
    pub open spec fn payments(&self) -> Map<Seq<char>, PaymentView> {
        self.payment_table().map()
    }

    /// The subscriptions by id.
    pub open spec fn subscriptions(&self) -> Map<Seq<char>, SubscriptionView> {
        self.subscription_table().map()
    }

    /// The invoice table.
    pub closed spec fn invoice_table(&self) -> Table<Invoice> {
        self.invoices
    }

    /// The payment table.
    pub closed spec fn payment_table(&self) -> Table<Payment> {
        self.payments
    }

    /// The subscription table.
    pub closed spec fn subscription_table(&self) -> Table<Subscription> {
        self.subscriptions
    }

    /// The invoice ids of each customer, in creation order.
    pub closed spec fn invoice_index(&self) -> Map<Seq<char>, CustomerIdsView> {
        self.invoices_by_customer.map()
    }

    /// The subscription ids of each customer, in creation order.
    pub closed spec fn subscription_index(&self) -> Map<Seq<char>, CustomerIdsView> {
        self.subs_by_customer.map()
    }

    /// The attached event bus.
    pub closed spec fn event_bus(&self) -> Option<EventBus> {
        self.event_bus
    }

    /// Well-formedness: every table has distinct keys and the bus is well
    /// formed.
    pub closed spec fn wf(&self) -> bool {
        &&& self.invoices.wf()
        &&& self.payments.wf()
        &&& self.subscriptions.wf()
        &&& self.invoices_by_customer.wf()
        &&& self.subs_by_customer.wf()
        &&& bus_wf(self.event_bus)
    }

    /// An empty store without event bus.
    pub fn new() -> (s: BillingStore)
        ensures
            s.wf(),
            s.invoices() == Map::<Seq<char>, InvoiceView>::empty(),
            s.payments() == Map::<Seq<char>, PaymentView>::empty(),
            s.subscriptions() == Map::<Seq<char>, SubscriptionView>::empty(),
            s.event_bus() is None,
    {
        BillingStore {
            invoices: Table::new(),
            payments: Table::new(),
            subscriptions: Table::new(),
            invoices_by_customer: Table::new(),
            subs_by_customer: Table::new(),
            event_bus: None,
        }
    }

    /// Attach an event bus: every state change is published on it.
    pub fn with_event_bus(self, bus: EventBus) -> (s: BillingStore)
        requires
            self.wf(),
            bus.wf(),
        ensures
            s.wf(),
            s.invoice_table() == self.invoice_table(),
            s.payment_table() == self.payment_table(),
            s.subscription_table() == self.subscription_table(),
            s.invoice_index() == self.invoice_index(),
            s.subscription_index() == self.subscription_index(),
            s.event_bus() == Some(bus),
    {
        BillingStore {
            invoices: self.invoices,
            payments: self.payments,
            subscriptions: self.subscriptions,
            invoices_by_customer: self.invoices_by_customer,
            subs_by_customer: self.subs_by_customer,
            event_bus: Some(bus),
        }
    }

    /// The attached event bus.
    pub fn events(&self) -> (b: Option<&EventBus>)
        ensures
            match b {
                Some(b) => self.event_bus() == Some(*b),
                None => self.event_bus() is None,
            },
    {
        match &self.event_bus {
            Some(b) => Some(b),
            None => None,
        }
    }

    fn emit(&mut self, name: &str, id: &str)
        requires
            old(self).wf(),
        ensures
            final(self).wf(),
            final(self).invoices == old(self).invoices,
            final(self).payments == old(self).payments,
            final(self).subscriptions == old(self).subscriptions,
            final(self).invoices_by_customer == old(self).invoices_by_customer,
            final(self).subs_by_customer == old(self).subs_by_customer,
            emitted(old(self).event_bus, final(self).event_bus, name@, id@),
    {
        emit_on(&mut self.event_bus, name, id);
    }

    /// Number of invoices.
    pub fn invoice_count(&self) -> (n: usize)
        requires
            self.wf(),
        ensures
            n == self.invoices().len(),
    {
        self.invoices.len()
    }

    /// Number of payments.
    pub fn payment_count(&self) -> (n: usize)
        requires
            self.wf(),
        ensures
            n == self.payments().len(),
    {
        self.payments.len()
    }

    /// Number of subscriptions.
    pub fn subscription_count(&self) -> (n: usize)
        requires
            self.wf(),
        ensures
            n == self.subscriptions().len(),
    {
        self.subscriptions.len()
    }

    /// Store an invoice, created now, under its id (replacing an invoice
    /// with the same id), and record it for its customer.
    pub fn create_invoice(&mut self, invoice: Invoice) -> (r: Result<Invoice, BillingError>)
        requires
            old(self).wf(),
        ensures
            final(self).wf(),
            final(self).payment_table() == old(self).payment_table(),
            final(self).subscription_table() == old(self).subscription_table(),
            final(self).subscription_index() == old(self).subscription_index(),
            match r {
                Ok(inv) => {
                    &&& invoice_stored(invoice@, inv@)
                    &&& final(self).invoices() == old(self).invoices().insert(invoice.id@, inv@)
                    &&& final(self).invoice_index() == index_push(old(self).invoice_index(), invoice.customer_id@, invoice.id@)
                    &&& emitted(old(self).event_bus(), final(self).event_bus(), "invoice.created"@, invoice.id@)
                },
                Err(_) => false,
            },
    {
        let mut invoice = invoice;
        invoice.created_at = now_unix_nanos();
        let out = invoice.duplicate();
        let id = invoice.id.clone();
        let customer = invoice.customer_id.clone();
        self.invoices.upsert(invoice);
        record_id(&mut self.invoices_by_customer, customer.as_str(), id.as_str());
        self.emit("invoice.created", id.as_str());
        Ok(out)
    }

    /// The invoice with this id.
    pub fn get_invoice(&self, id: &str) -> (r: Option<Invoice>)
        requires
            self.wf(),
        ensures
            match r {
                Some(inv) => self.invoices().contains_key(id@) && inv@ == self.invoices()[id@],
                None => !self.invoices().contains_key(id@),
            },
    {
        self.invoices.get(id)
    }

    /// The invoices recorded for a customer, in creation order.
    pub fn list_invoices_for_customer(&self, customer_id: &str) -> (r: Vec<Invoice>)
        requires
            self.wf(),
        ensures
            models(r@) == picked(self.invoices(), ids_for(self.invoice_index(), customer_id@)),
    {
        let ids = ids_of(&self.invoices_by_customer, customer_id);
        self.invoices.pick(&ids)
    }

    /// All invoices, in creation order.
    pub fn list_invoices(&self) -> (r: Vec<Invoice>)
        ensures
            models(r@) == self.invoice_table().seq(),
    {
        self.invoices.all()
    }

    /// Mark an open or past-due invoice paid, now.
    pub fn mark_invoice_paid(&mut self, id: &str) -> (r: Result<Invoice, BillingError>)
        requires
            old(self).wf(),
        ensures
            final(self).wf(),
            final(self).payments() == old(self).payments(),
            final(self).subscriptions() == old(self).subscriptions(),
            final(self).invoice_index() == old(self).invoice_index(),
            match r {
                Ok(inv) => {
                    &&& old(self).invoices().contains_key(id@)
                    &&& (old(self).invoices()[id@].status == InvoiceStatus::Open || old(self).invoices()[id@].status
                        == InvoiceStatus::PastDue)
                    &&& invoice_restated(old(self).invoices()[id@], inv@, InvoiceStatus::Paid)
                    &&& inv@.paid_at is Some
                    &&& final(self).invoices() == old(self).invoices().insert(id@, inv@)
                    &&& emitted(old(self).event_bus(), final(self).event_bus(), "invoice.paid"@, id@)
                },
                Err(BillingError::InvoiceNotFound(e)) => !old(self).invoices().contains_key(id@) && e@ == id@
                    && final(self).invoices() == old(self).invoices() && final(self).event_bus() == old(self).event_bus(),
                Err(BillingError::InvoiceWrongState { id: e, state, expected }) => {
                    &&& old(self).invoices().contains_key(id@)
                    &&& state == old(self).invoices()[id@].status
                    &&& state != InvoiceStatus::Open && state != InvoiceStatus::PastDue
                    &&& expected == InvoiceStatus::Open && e@ == id@
                    &&& final(self).invoices() == old(self).invoices()
                    &&& final(self).event_bus() == old(self).event_bus()
                },
                Err(_) => false,
            },
    {
        let i = match self.invoices.find(id) {
            Some(i) => i,
            None => {
                return Err(BillingError::InvoiceNotFound(id.to_owned()));
            },
        };
        let state = self.invoices.at(i).status;
        if state != InvoiceStatus::Open && state != InvoiceStatus::PastDue {
            return Err(BillingError::InvoiceWrongState { id: id.to_owned(), state, expected: InvoiceStatus::Open });
        }
        let mut inv = self.invoices.at(i).duplicate();
        inv.mark_paid();
        let out = inv.duplicate();
        self.invoices.set_at(i, inv);
        self.emit("invoice.paid", id);
        Ok(out)
    }

    /// Void an invoice that is neither paid nor refunded.
    pub fn void_invoice(&mut self, id: &str) -> (r: Result<Invoice, BillingError>)
        requires
            old(self).wf(),
        ensures
            final(self).wf(),
            final(self).payments() == old(self).payments(),
            final(self).subscriptions() == old(self).subscriptions(),
            final(self).invoice_index() == old(self).invoice_index(),
            match r {
                Ok(inv) => {
                    &&& old(self).invoices().contains_key(id@)
                    &&& old(self).invoices()[id@].status != InvoiceStatus::Paid
                    &&& old(self).invoices()[id@].status != InvoiceStatus::Refunded
                    &&& invoice_restated(old(self).invoices()[id@], inv@, InvoiceStatus::Void)
                    &&& inv@.paid_at == old(self).invoices()[id@].paid_at
                    &&& final(self).invoices() == old(self).invoices().insert(id@, inv@)
                    &&& emitted(old(self).event_bus(), final(self).event_bus(), "invoice.voided"@, id@)
                },
                Err(BillingError::InvoiceNotFound(e)) => !old(self).invoices().contains_key(id@) && e@ == id@
                    && final(self).invoices() == old(self).invoices() && final(self).event_bus() == old(self).event_bus(),
                Err(BillingError::InvoiceWrongState { id: e, state, expected }) => {
                    &&& old(self).invoices().contains_key(id@)
                    &&& state == old(self).invoices()[id@].status
                    &&& (state == InvoiceStatus::Paid || state == InvoiceStatus::Refunded)
                    &&& expected == InvoiceStatus::Open && e@ == id@
                    &&& final(self).invoices() == old(self).invoices()
                    &&& final(self).event_bus() == old(self).event_bus()
                },
                Err(_) => false,
            },
    {
        let i = match self.invoices.find(id) {
            Some(i) => i,
            None => {
                return Err(BillingError::InvoiceNotFound(id.to_owned()));
            },
        };
        let state = self.invoices.at(i).status;
        if state == InvoiceStatus::Paid || state == InvoiceStatus::Refunded {
            return Err(BillingError::InvoiceWrongState { id: id.to_owned(), state, expected: InvoiceStatus::Open });
        }
        let mut inv = self.invoices.at(i).duplicate();
        inv.void();
        let out = inv.duplicate();
        self.invoices.set_at(i, inv);
        self.emit("invoice.voided", id);
        Ok(out)
    }

    /// Store a payment under its id (replacing one with the same id) and
    /// link it to its invoice, if that invoice is stored.
    pub fn create_payment(&mut self, payment: Payment) -> (r: Result<Payment, BillingError>)
        requires
            old(self).wf(),
        ensures
            final(self).wf(),
            final(self).subscriptions() == old(self).subscriptions(),
            final(self).invoice_index() == old(self).invoice_index(),
            match r {
                Ok(p) => {
                    &&& p@ == payment@
                    &&& final(self).payments() == old(self).payments().insert(payment.id@, payment@)
                    &&& if old(self).invoices().contains_key(payment.invoice_id@) {
                        &&& final(self).invoices().dom() == old(self).invoices().dom()
                        &&& with_payment(
                            old(self).invoices()[payment.invoice_id@],
                            final(self).invoices()[payment.invoice_id@],
                            payment.id@,
                        )
                        &&& forall|k: Seq<char>| k != payment.invoice_id@ && #[trigger] old(self).invoices().contains_key(k)
                            ==> final(self).invoices()[k] == old(self).invoices()[k]
                    } else {
                        final(self).invoices() == old(self).invoices()
                    }
                    &&& emitted(old(self).event_bus(), final(self).event_bus(), "payment.created"@, payment.id@)
                },
                Err(_) => false,
            },
    {
        let out = payment.duplicate();
        let id = payment.id.clone();
        let invoice_id = payment.invoice_id.clone();
        self.payments.upsert(payment);
        match self.invoices.find(invoice_id.as_str()) {
            Some(i) => {
                let mut inv = self.invoices.at(i).duplicate();
                let ghost before = inv@.payment_ids;
                inv.payment_ids.push(id.clone());
                proof {
                    assert(inv@.payment_ids.map_values(|s: String| s@) =~= before.map_values(|s: String| s@).push(id@));
                }
                self.invoices.set_at(i, inv);
                proof {
                    self.invoices.lemma_map();
                }
            },
            None => {},
        }
        self.emit("payment.created", id.as_str());
        Ok(out)
    }

    /// Mark a pending payment succeeded, now, and mark its invoice paid if
    /// the amount is the invoice total. With another amount the payment
    /// stays succeeded, the invoice is left as it was and the mismatch is
    /// reported.
    pub fn succeed_payment(&mut self, id: &str) -> (r: Result<(Payment, Option<Invoice>), BillingError>)
        requires
            old(self).wf(),
        ensures
            final(self).wf(),
            final(self).subscriptions() == old(self).subscriptions(),
            final(self).invoice_index() == old(self).invoice_index(),
            match r {
                Ok((p, inv)) => {
                    &&& old(self).payments().contains_key(id@)
                    &&& old(self).payments()[id@].status == PaymentStatus::Pending
                    &&& payment_processed(old(self).payments()[id@], p@, PaymentStatus::Succeeded, old(self).payments()[id@].failure_reason)
                    &&& final(self).payments() == old(self).payments().insert(id@, p@)
                    &&& match inv {
                        Some(inv) => {
                            &&& old(self).invoices().contains_key(p@.invoice_id)
                            &&& old(self).invoices()[p@.invoice_id].total_minor == p@.amount_minor
                            &&& invoice_restated(old(self).invoices()[p@.invoice_id], inv@, InvoiceStatus::Paid)
                            &&& inv@.paid_at is Some
                            &&& final(self).invoices() == old(self).invoices().insert(p@.invoice_id, inv@)
                            &&& exists|mid: Option<EventBus>|
                                #[trigger] emitted(old(self).event_bus(), mid, "payment.succeeded"@, id@) && emitted(
                                    mid,
                                    final(self).event_bus(),
                                    "invoice.paid"@,
                                    p@.invoice_id,
                                )
                        },
                        None => {
                            &&& !old(self).invoices().contains_key(p@.invoice_id)
                            &&& final(self).invoices() == old(self).invoices()
                            &&& emitted(old(self).event_bus(), final(self).event_bus(), "payment.succeeded"@, id@)
                        },
                    }
                },
                Err(BillingError::PaymentNotFound(e)) => !old(self).payments().contains_key(id@) && e@ == id@
                    && final(self).payments() == old(self).payments() && final(self).invoices() == old(self).invoices()
                    && final(self).event_bus() == old(self).event_bus(),
                Err(BillingError::PaymentWrongState { id: e, state, expected }) => {
                    &&& old(self).payments().contains_key(id@)
                    &&& state == old(self).payments()[id@].status
                    &&& state != PaymentStatus::Pending && expected == PaymentStatus::Pending && e@ == id@
                    &&& final(self).payments() == old(self).payments()
                    &&& final(self).invoices() == old(self).invoices()
                    &&& final(self).event_bus() == old(self).event_bus()
                },
                Err(BillingError::AmountMismatch { paid, expected }) => {
                    let p = old(self).payments()[id@];
                    &&& old(self).payments().contains_key(id@)
                    &&& p.status == PaymentStatus::Pending
                    &&& old(self).invoices().contains_key(p.invoice_id)
                    &&& paid == p.amount_minor
                    &&& expected == old(self).invoices()[p.invoice_id].total_minor
                    &&& paid != expected
                    &&& final(self).payments().dom() == old(self).payments().dom()
                    &&& payment_processed(p, final(self).payments()[id@], PaymentStatus::Succeeded, p.failure_reason)
                    &&& forall|k: Seq<char>| k != id@ && #[trigger] old(self).payments().contains_key(k)
                        ==> final(self).payments()[k] == old(self).payments()[k]
                    &&& final(self).invoices() == old(self).invoices()
                    &&& emitted(old(self).event_bus(), final(self).event_bus(), "payment.succeeded"@, id@)
                },
                Err(_) => false,
            },
    {
        let i = match self.payments.find(id) {
            Some(i) => i,
            None => {
                return Err(BillingError::PaymentNotFound(id.to_owned()));
            },
        };
        let state = self.payments.at(i).status;
        if state != PaymentStatus::Pending {
            return Err(BillingError::PaymentWrongState { id: id.to_owned(), state, expected: PaymentStatus::Pending });
        }
        let mut p = self.payments.at(i).duplicate();
        p.succeed();
        let out = p.duplicate();
        let invoice_id = p.invoice_id.clone();
        let amount = p.amount_minor;
        self.payments.set_at(i, p);
        proof {
            self.payments.lemma_map();
        }
        let ghost bus0 = self.event_bus;
        self.emit("payment.succeeded", id);
        let ghost bus1 = self.event_bus;
        match self.invoices.find(invoice_id.as_str()) {
            Some(j) => {
                let total = self.invoices.at(j).total_minor;
                if total != amount {
                    return Err(BillingError::AmountMismatch { paid: amount, expected: total });
                }
                let mut inv = self.invoices.at(j).duplicate();
                inv.mark_paid();
                let inv_out = inv.duplicate();
                self.invoices.set_at(j, inv);
                self.emit("invoice.paid", invoice_id.as_str());
                assert(emitted(bus0, bus1, "payment.succeeded"@, id@));
                Ok((out, Some(inv_out)))
            },
            None => Ok((out, None)),
        }
    }

    /// Mark a pending payment failed, now, for this reason.
    pub fn fail_payment(&mut self, id: &str, reason: &str) -> (r: Result<Payment, BillingError>)
        requires
            old(self).wf(),
        ensures
            final(self).wf(),
            final(self).invoices() == old(self).invoices(),
            final(self).subscriptions() == old(self).subscriptions(),
            match r {
                Ok(p) => {
                    &&& old(self).payments().contains_key(id@)
                    &&& old(self).payments()[id@].status == PaymentStatus::Pending
                    &&& payment_processed(old(self).payments()[id@], p@, PaymentStatus::Failed, Some(reason@))
                    &&& final(self).payments() == old(self).payments().insert(id@, p@)
                    &&& emitted(old(self).event_bus(), final(self).event_bus(), "payment.failed"@, id@)
                },
                Err(BillingError::PaymentNotFound(e)) => !old(self).payments().contains_key(id@) && e@ == id@
                    && final(self).payments() == old(self).payments() && final(self).event_bus() == old(self).event_bus(),
                Err(BillingError::PaymentWrongState { id: e, state, expected }) => {
                    &&& old(self).payments().contains_key(id@)
                    &&& state == old(self).payments()[id@].status
                    &&& state != PaymentStatus::Pending && expected == PaymentStatus::Pending && e@ == id@
                    &&& final(self).payments() == old(self).payments()
                    &&& final(self).event_bus() == old(self).event_bus()
                },
                Err(_) => false,
            },
    {
        let i = match self.payments.find(id) {
            Some(i) => i,
            None => {
                return Err(BillingError::PaymentNotFound(id.to_owned()));
            },
        };
        let state = self.payments.at(i).status;
        if state != PaymentStatus::Pending {
            return Err(BillingError::PaymentWrongState { id: id.to_owned(), state, expected: PaymentStatus::Pending });
        }
        let mut p = self.payments.at(i).duplicate();
        p.fail(reason);
        let out = p.duplicate();
        self.payments.set_at(i, p);
        self.emit("payment.failed", id);
        Ok(out)
    }

    /// The payment with this id.
    pub fn get_payment(&self, id: &str) -> (r: Option<Payment>)
        requires
            self.wf(),
        ensures
            match r {
                Some(p) => self.payments().contains_key(id@) && p@ == self.payments()[id@],
                None => !self.payments().contains_key(id@),
            },
    {
        self.payments.get(id)
    }

    /// All payments, in creation order.
    pub fn list_payments(&self) -> (r: Vec<Payment>)
        ensures
            models(r@) == self.payment_table().seq(),
    {
        self.payments.all()
    }

    /// Store a subscription under its id (replacing one with the same id)
    /// and record it for its customer.
    pub fn create_subscription(&mut self, sub: Subscription) -> (r: Result<Subscription, BillingError>)
        requires
            old(self).wf(),
        ensures
            final(self).wf(),
            final(self).invoices() == old(self).invoices(),
            final(self).payments() == old(self).payments(),
            final(self).invoice_index() == old(self).invoice_index(),
            match r {
                Ok(s) => {
                    &&& s@ == sub@
                    &&& final(self).subscriptions() == old(self).subscriptions().insert(sub.id@, sub@)
                    &&& final(self).subscription_index() == index_push(old(self).subscription_index(), sub.customer_id@, sub.id@)
                    &&& emitted(old(self).event_bus(), final(self).event_bus(), "subscription.created"@, sub.id@)
                },
                Err(_) => false,
            },
    {
        let out = sub.duplicate();
        let id = sub.id.clone();
        let customer = sub.customer_id.clone();
        self.subscriptions.upsert(sub);
        record_id(&mut self.subs_by_customer, customer.as_str(), id.as_str());
        self.emit("subscription.created", id.as_str());
        Ok(out)
    }

    /// The subscription with this id.
    pub fn get_subscription(&self, id: &str) -> (r: Option<Subscription>)
        requires
            self.wf(),
        ensures
            match r {
                Some(s) => self.subscriptions().contains_key(id@) && s@ == self.subscriptions()[id@],
                None => !self.subscriptions().contains_key(id@),
            },
    {
        self.subscriptions.get(id)
    }

    /// The subscriptions recorded for a customer, in creation order.
    pub fn list_subscriptions_for_customer(&self, customer_id: &str) -> (r: Vec<Subscription>)
        requires
            self.wf(),
        ensures
            models(r@) == picked(self.subscriptions(), ids_for(self.subscription_index(), customer_id@)),
    {
        let ids = ids_of(&self.subs_by_customer, customer_id);
        self.subscriptions.pick(&ids)
    }

    /// All subscriptions, in creation order.
    pub fn list_subscriptions(&self) -> (r: Vec<Subscription>)
        ensures
            models(r@) == self.subscription_table().seq(),
    {
        self.subscriptions.all()
    }

    /// Cancel an active or past-due subscription, now.
    pub fn cancel_subscription(&mut self, id: &str) -> (r: Result<Subscription, BillingError>)
        requires
            old(self).wf(),
        ensures
            final(self).wf(),
            final(self).invoices() == old(self).invoices(),
            final(self).payments() == old(self).payments(),
            match r {
                Ok(s) => {
                    &&& old(self).subscriptions().contains_key(id@)
                    &&& (old(self).subscriptions()[id@].status == SubscriptionStatus::Active
                        || old(self).subscriptions()[id@].status == SubscriptionStatus::PastDue)
                    &&& subscription_kept(old(self).subscriptions()[id@], s@)
                    &&& s@.current_period_end == old(self).subscriptions()[id@].current_period_end
                    &&& s@.status == SubscriptionStatus::Cancelled
                    &&& s@.cancelled_at is Some
                    &&& final(self).subscriptions() == old(self).subscriptions().insert(id@, s@)
                    &&& emitted(old(self).event_bus(), final(self).event_bus(), "subscription.cancelled"@, id@)
                },
                Err(BillingError::SubscriptionNotFound(e)) => !old(self).subscriptions().contains_key(id@) && e@ == id@
                    && final(self).subscriptions() == old(self).subscriptions() && final(self).event_bus() == old(
                    self,
                ).event_bus(),
                Err(BillingError::SubscriptionWrongState { id: e, state, expected }) => {
                    &&& old(self).subscriptions().contains_key(id@)
                    &&& state == old(self).subscriptions()[id@].status
                    &&& state != SubscriptionStatus::Active && state != SubscriptionStatus::PastDue
                    &&& expected == SubscriptionStatus::Active && e@ == id@
                    &&& final(self).subscriptions() == old(self).subscriptions()
                    &&& final(self).event_bus() == old(self).event_bus()
                },
                Err(_) => false,
            },
    {
        let i = match self.subscriptions.find(id) {
            Some(i) => i,
            None => {
                return Err(BillingError::SubscriptionNotFound(id.to_owned()));
            },
        };
        let state = self.subscriptions.at(i).status;
        if state != SubscriptionStatus::Active && state != SubscriptionStatus::PastDue {
            return Err(
                BillingError::SubscriptionWrongState { id: id.to_owned(), state, expected: SubscriptionStatus::Active },
            );
        }
        let mut s = self.subscriptions.at(i).duplicate();
        s.cancel();
        let out = s.duplicate();
        self.subscriptions.set_at(i, s);
        self.emit("subscription.cancelled", id);
        Ok(out)
    }

    /// Renew an active subscription at time `now` and store the invoice for
    /// its new period.
    pub fn renew_subscription_at(&mut self, id: &str, customer_name: &str, now: i64) -> (r: Result<
        (Subscription, Invoice),
        BillingError,
    >)
        requires
            old(self).wf(),
        ensures
            final(self).wf(),
            final(self).payments() == old(self).payments(),
            final(self).subscription_index() == old(self).subscription_index(),
            match r {
                Ok((s, inv)) => {
                    let o = old(self).subscriptions()[id@];
                    &&& old(self).subscriptions().contains_key(id@)
                    &&& o.status == SubscriptionStatus::Active
                    &&& subscription_kept(o, s@)
                    &&& s@.status == o.status
                    &&& s@.cancelled_at == o.cancelled_at
                    &&& s@.current_period_end == renewed_end(o, now)
                    &&& final(self).subscriptions() == old(self).subscriptions().insert(id@, s@)
                    &&& period_invoice(s@, customer_name@, inv@)
                    &&& final(self).invoices() == old(self).invoices().insert(inv@.id, inv@)
                    &&& final(self).invoice_index() == index_push(old(self).invoice_index(), s@.customer_id, inv@.id)
                    &&& exists|mid: Option<EventBus>|
                        #[trigger] emitted(old(self).event_bus(), mid, "invoice.created"@, inv@.id) && emitted(
                            mid,
                            final(self).event_bus(),
                            "subscription.renewed"@,
                            id@,
                        )
                },
                Err(BillingError::SubscriptionNotFound(e)) => !old(self).subscriptions().contains_key(id@) && e@ == id@
                    && final(self).subscriptions() == old(self).subscriptions() && final(self).invoices() == old(
                    self,
                ).invoices() && final(self).invoice_index() == old(self).invoice_index() && final(self).event_bus()
                    == old(self).event_bus(),
                Err(BillingError::SubscriptionWrongState { id: e, state, expected }) => {
                    &&& old(self).subscriptions().contains_key(id@)
                    &&& state == old(self).subscriptions()[id@].status
                    &&& state != SubscriptionStatus::Active
                    &&& expected == SubscriptionStatus::Active && e@ == id@
                    &&& final(self).subscriptions() == old(self).subscriptions()
                    &&& final(self).invoices() == old(self).invoices()
                    &&& final(self).invoice_index() == old(self).invoice_index()
                    &&& final(self).event_bus() == old(self).event_bus()
                },
                Err(_) => false,
            },
    {
        let i = match self.subscriptions.find(id) {
            Some(i) => i,
            None => {
                return Err(BillingError::SubscriptionNotFound(id.to_owned()));
            },
        };
        let state = self.subscriptions.at(i).status;
        if state != SubscriptionStatus::Active {
            return Err(
                BillingError::SubscriptionWrongState { id: id.to_owned(), state, expected: SubscriptionStatus::Active },
            );
        }
        Ok(self.renew_index(i, customer_name, now))
    }

    fn renew_index(&mut self, i: usize, customer_name: &str, now: i64) -> (r: (Subscription, Invoice))
        requires
            old(self).wf(),
            i < old(self).subscription_table().seq().len(),
            old(self).subscription_table().seq()[i as int].status == SubscriptionStatus::Active,
        ensures
            final(self).wf(),
            final(self).payments() == old(self).payments(),
            final(self).subscription_index() == old(self).subscription_index(),
            ({
                let (s, inv) = r;
                let o = old(self).subscription_table().seq()[i as int];
                &&& s@ == renewed(o, now)
                &&& final(self).subscription_table().seq() == old(self).subscription_table().seq().update(i as int, s@)
                &&& final(self).subscriptions() == old(self).subscriptions().insert(o.id, s@)
                &&& period_invoice(s@, customer_name@, inv@)
                &&& final(self).invoices() == old(self).invoices().insert(inv@.id, inv@)
                &&& final(self).invoice_index() == index_push(old(self).invoice_index(), s@.customer_id, inv@.id)
                &&& exists|mid: Option<EventBus>|
                    #[trigger] emitted(old(self).event_bus(), mid, "invoice.created"@, inv@.id) && emitted(
                        mid,
                        final(self).event_bus(),
                        "subscription.renewed"@,
                        o.id,
                    )
            }),
    {
        let mut s = self.subscriptions.at(i).duplicate();
        s.renew_at(now);
        let invoice = s.generate_invoice(customer_name);
        let out = s.duplicate();
        let id = s.id.clone();
        self.subscriptions.set_at(i, s);
        let ghost bus0 = self.event_bus;
        let stored = match self.create_invoice(invoice) {
            Ok(inv) => inv,
            Err(_) => {
                proof {
                    assert(false);
                }
                Invoice::new_draft("", "", "")
            },
        };
        let ghost bus1 = self.event_bus;
        self.emit("subscription.renewed", id.as_str());
        assert(emitted(bus0, bus1, "invoice.created"@, stored@.id));
        (out, stored)
    }

    /// Renew, at time `now`, every active subscription whose period has
    /// ended, with an invoice for its new period addressed to the name that
    /// `customer_name` gives for its customer. Returns the renewed
    /// subscriptions with their invoices, in creation order.
    pub fn process_renewals_at<F: Fn(&str) -> String>(&mut self, now: i64, customer_name: F) -> (r: Vec<
        (Subscription, Invoice),
    >)
        requires
            old(self).wf(),
            forall|c: &str| customer_name.requires((c,)),
        ensures
            final(self).wf(),
            final(self).payments() == old(self).payments(),
            final(self).subscription_table().seq() == renewal_pass(old(self).subscription_table().seq(), now),
            r@.len() == due_subscriptions(old(self).subscription_table().seq(), now).len(),
            forall|k: int| 0 <= k < r@.len() ==> {
                let o = due_subscriptions(old(self).subscription_table().seq(), now)[k];
                &&& #[trigger] r@[k].0@ == renewed(o, now)
                &&& final(self).invoices().contains_key(r@[k].1@.id)
                &&& exists|c: &str, name: String|
                    c@ == o.customer_id && customer_name.ensures((c,), name) && period_invoice(
                        r@[k].0@,
                        name@,
                        r@[k].1@,
                    )
            },
    {
        let ghost old_seq = self.subscription_table().seq();
        let ghost p = due_at(now);
        let mut out: Vec<(Subscription, Invoice)> = Vec::new();
        let n = self.subscriptions.len();
        let mut i: usize = 0;
        proof {
            lemma_filter_take_zero(old_seq, p);
        }
        while i < n
            invariant
                self.wf(),
                n == old_seq.len(),
                i <= n,
                p == due_at(now),
                forall|c: &str| customer_name.requires((c,)),
                self.payments() == old(self).payments(),
                self.subscription_table().seq().len() == n,
                forall|j: int| 0 <= j < i ==> #[trigger] self.subscription_table().seq()[j] == renew_if_due(old_seq[j], now),
                forall|j: int| i <= j < n ==> #[trigger] self.subscription_table().seq()[j] == old_seq[j],
                out@.len() == old_seq.take(i as int).filter(p).len(),
                forall|k: int| 0 <= k < out@.len() ==> {
                    let o = old_seq.take(i as int).filter(p)[k];
                    &&& #[trigger] out@[k].0@ == renewed(o, now)
                    &&& self.invoices().contains_key(out@[k].1@.id)
                    &&& exists|c: &str, name: String|
                        c@ == o.customer_id && customer_name.ensures((c,), name) && period_invoice(
                            out@[k].0@,
                            name@,
                            out@[k].1@,
                        )
                },
            decreases n - i,
        {
            proof {
                lemma_filter_take_step(old_seq, p, i as int);
            }
            let ghost before = self.subscription_table().seq();
            let ghost inv_before = self.invoices();
            if self.subscriptions.at(i).needs_renewal_at(now) {
                let customer = self.subscriptions.at(i).customer_id.clone();
                let c: &str = customer.as_str();
                let name = customer_name(c);
                let pair = self.renew_index(i, name.as_str(), now);
                let ghost k = out@.len() as int;
                out.push(pair);
                proof {
                    assert(old_seq.take(i + 1).filter(p)[k] == old_seq[i as int]);
                    assert forall|kk: int| 0 <= kk < out@.len() implies {
                        let o = old_seq.take(i + 1).filter(p)[kk];
                        &&& #[trigger] out@[kk].0@ == renewed(o, now)
                        &&& self.invoices().contains_key(out@[kk].1@.id)
                        &&& exists|c: &str, name: String|
                            c@ == o.customer_id && customer_name.ensures((c,), name) && period_invoice(
                                out@[kk].0@,
                                name@,
                                out@[kk].1@,
                            )
                    } by {
                        if kk < k {
                            assert(old_seq.take(i + 1).filter(p)[kk] == old_seq.take(i as int).filter(p)[kk]);
                            assert(inv_before.contains_key(out@[kk].1@.id));
                        } else {
                            assert(customer_name.ensures((c,), name));
                        }
                    }
                    assert forall|j: int| 0 <= j < i + 1 implies #[trigger] self.subscription_table().seq()[j]
                        == renew_if_due(old_seq[j], now) by {
                        if j < i {
                            assert(self.subscription_table().seq()[j] == before[j]);
                        }
                    }
                    assert forall|j: int| i + 1 <= j < n implies #[trigger] self.subscription_table().seq()[j] == old_seq[j] by {
                        assert(self.subscription_table().seq()[j] == before[j]);
                    }
                }
            } else {
                assert(renew_if_due(old_seq[i as int], now) == old_seq[i as int]);
            }
            i = i + 1;
        }
        proof {
            lemma_take_full(old_seq);
            assert(self.subscription_table().seq() =~= renewal_pass(old_seq, now));
        }
        out
    }

    /// Renew, now, every active subscription whose period has ended; see
    /// [`BillingStore::process_renewals_at`].
    pub fn process_renewals<F: Fn(&str) -> String>(&mut self, customer_name: F) -> (r: Vec<(Subscription, Invoice)>)
        requires
            old(self).wf(),
            forall|c: &str| customer_name.requires((c,)),
        ensures
            final(self).wf(),
            final(self).payments() == old(self).payments(),
            exists|now: i64|
                #[trigger] renewal_pass(old(self).subscription_table().seq(), now)
                    == final(self).subscription_table().seq() && r@.len() == due_subscriptions(old(self).subscription_table().seq(), now).len(),
    {
        let now = now_unix_nanos();
        self.process_renewals_at(now, customer_name)
    }

    /// Renew an active subscription now and store the invoice for its new
    /// period.
    pub fn renew_subscription(&mut self, id: &str, customer_name: &str) -> (r: Result<
        (Subscription, Invoice),
        BillingError,
    >)
        requires
            old(self).wf(),
        ensures
            final(self).wf(),
            final(self).payments() == old(self).payments(),
            final(self).subscription_index() == old(self).subscription_index(),
            match r {
                Ok((s, inv)) => {
                    let o = old(self).subscriptions()[id@];
                    &&& old(self).subscriptions().contains_key(id@)
                    &&& o.status == SubscriptionStatus::Active
                    &&& subscription_kept(o, s@)
                    &&& s@.status == o.status
                    &&& exists|now: i64| s@.current_period_end == #[trigger] renewed_end(o, now)
                    &&& final(self).subscriptions() == old(self).subscriptions().insert(id@, s@)
                    &&& period_invoice(s@, customer_name@, inv@)
                    &&& final(self).invoices() == old(self).invoices().insert(inv@.id, inv@)
                },
                Err(BillingError::SubscriptionNotFound(e)) => !old(self).subscriptions().contains_key(id@) && e@ == id@
                    && final(self).subscriptions() == old(self).subscriptions() && final(self).invoices() == old(
                    self,
                ).invoices(),
                Err(BillingError::SubscriptionWrongState { id: e, state, expected }) => {
                    &&& old(self).subscriptions().contains_key(id@)
                    &&& state == old(self).subscriptions()[id@].status
                    &&& state != SubscriptionStatus::Active
                    &&& expected == SubscriptionStatus::Active && e@ == id@
                    &&& final(self).subscriptions() == old(self).subscriptions()
                    &&& final(self).invoices() == old(self).invoices()
                },
                Err(_) => false,
            },
    {
        let now = now_unix_nanos();
        self.renew_subscription_at(id, customer_name, now)
    }
}

} // verus!
