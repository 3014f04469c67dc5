//! The billing commands: creating invoices, payments and subscriptions
//! from requests, and the revenue statistics.

use vstd::prelude::*;
use crate::billing::store::{BillingError, BillingStore};
use crate::billing::types::{
    Invoice, InvoiceItem, InvoiceStatus, InvoiceView, ItemView, Payment, Subscription, invoice_status_name, items_total, opt_chars,
    payment_status_name, subscription_status_name,
};
use crate::table::models;
use crate::text::{decimal, decimal_text, push_str};

verus! {

impl BillingError {
    /// The error message.
    pub fn to_string(&self) -> (s: String)
        ensures
            s@ == match self {
                BillingError::InvoiceNotFound(id) => "invoice not found: "@ + id@,
                BillingError::PaymentNotFound(id) => "payment not found: "@ + id@,
                BillingError::SubscriptionNotFound(id) => "subscription not found: "@ + id@,
                BillingError::InvoiceWrongState { id, state, expected } => "invoice "@ + id@ + " in state "@
                    + invoice_status_name(*state) + ", expected "@ + invoice_status_name(*expected),
                BillingError::PaymentWrongState { id, state, expected } => "payment "@ + id@ + " in state "@
                    + payment_status_name(*state) + ", expected "@ + payment_status_name(*expected),
                BillingError::SubscriptionWrongState { id, state, expected } => "subscription "@ + id@
                    + " in state "@ + subscription_status_name(*state) + ", expected "@ + subscription_status_name(
                    *expected,
                ),
                BillingError::AmountMismatch { paid, expected } => "payment amount ("@ + decimal_text(
                    *paid as nat,
                ) + ") doesn't match invoice total ("@ + decimal_text(*expected as nat) + ")"@,
            },
    {
        match self {
            BillingError::InvoiceNotFound(id) => {
                let mut s = "invoice not found: ".to_owned();
                push_str(&mut s, id.as_str());
                s
            },
            BillingError::PaymentNotFound(id) => {
                let mut s = "payment not found: ".to_owned();
                push_str(&mut s, id.as_str());
                s
            },
            BillingError::SubscriptionNotFound(id) => {
                let mut s = "subscription not found: ".to_owned();
                push_str(&mut s, id.as_str());
                s
            },
            BillingError::InvoiceWrongState { id, state, expected } => {
                let mut s = "invoice ".to_owned();
                push_str(&mut s, id.as_str());
                push_str(&mut s, " in state ");
                let a = state.to_string();
                push_str(&mut s, a.as_str());
                push_str(&mut s, ", expected ");
                let b = expected.to_string();
                push_str(&mut s, b.as_str());
                s
            },
            BillingError::PaymentWrongState { id, state, expected } => {
                let mut s = "payment ".to_owned();
                push_str(&mut s, id.as_str());
                push_str(&mut s, " in state ");
                let a = state.to_string();
                push_str(&mut s, a.as_str());
                push_str(&mut s, ", expected ");
                let b = expected.to_string();
                push_str(&mut s, b.as_str());
                s
            },
            BillingError::SubscriptionWrongState { id, state, expected } => {
                let mut s = "subscription ".to_owned();
                push_str(&mut s, id.as_str());
                push_str(&mut s, " in state ");
                let a = state.to_string();
                push_str(&mut s, a.as_str());
                push_str(&mut s, ", expected ");
                let b = expected.to_string();
                push_str(&mut s, b.as_str());
                s
            },
            BillingError::AmountMismatch { paid, expected } => {
                let mut s = "payment amount (".to_owned();
                let a = decimal(*paid);
                push_str(&mut s, a.as_str());
                push_str(&mut s, ") doesn't match invoice total (");
                let b = decimal(*expected);
                push_str(&mut s, b.as_str());
                push_str(&mut s, ")");
                s
            },
        }
    }
}

/// One line of an invoice request.
#[derive(Debug)]
pub struct CreateInvoiceItem {
    /// Description.
    pub description: String,
    /// Package, if any.
    pub package_id: Option<String>,
    /// Quantity.
    pub quantity: u64,
    /// Unit price in minor units.
    pub unit_price_minor: u64,
}

/// A request for an invoice.
#[derive(Debug)]
pub struct CreateInvoiceRequest {
    /// Customer id.
    pub customer_id: String,
    /// Customer name.
    pub customer_name: String,
    /// Currency.
    pub currency: String,
    /// Lines.
    pub items: Vec<CreateInvoiceItem>,
}

/// The sum of the line totals (quantity times unit price) of the first
/// `n` requested lines.
pub open spec fn requested_total(items: Seq<CreateInvoiceItem>, n: int) -> int
    decreases n,
{
    if n <= 0 {
        0
    } else {
        requested_total(items, n - 1) + items[n - 1].quantity * items[n - 1].unit_price_minor
    }
}

/// The invoice line a requested line becomes.
pub open spec fn requested_line(item: CreateInvoiceItem, currency: Seq<char>) -> ItemView {
    ItemView {
        description: item.description@,
        package_id: opt_chars(item.package_id),
        quantity: item.quantity,
        unit_price_minor: item.unit_price_minor,
        total_minor: (item.quantity * item.unit_price_minor) as u64,
        currency,
    }
}

/// Whether every line total and the invoice total fit in `u64`.
pub open spec fn request_fits(items: Seq<CreateInvoiceItem>) -> bool {
    &&& forall|i: int| 0 <= i < items.len() ==> #[trigger] items[i].quantity * items[i].unit_price_minor <= u64::MAX
    &&& requested_total(items, items.len() as int) <= u64::MAX
}

proof fn lemma_requested_total_mono(items: Seq<CreateInvoiceItem>, a: int, b: int)
    requires
        0 <= a <= b <= items.len(),
    ensures
        requested_total(items, a) <= requested_total(items, b),
    decreases b - a,
{
    if a < b {
        lemma_requested_total_mono(items, a, b - 1);
        assert(items[b - 1].quantity * items[b - 1].unit_price_minor >= 0) by (nonlinear_arith);
    }
}

/// A request for a payment of an invoice.
#[derive(Debug)]
pub struct CreatePaymentRequest {
    /// The invoice paid.
    pub invoice_id: String,
    /// Payment method.
    pub method: String,
}

/// A request for a subscription.
#[derive(Debug)]
pub struct CreateSubscriptionRequest {
    /// Customer id.
    pub customer_id: String,
    /// Customer name (for the first invoice).
    pub customer_name: String,
    /// Package subscribed to.
    pub package_id: String,
    /// Price per period in minor units.
    pub price_minor: u64,
    /// Currency.
    pub currency: String,
    /// Period length in seconds.
    pub period_seconds: u64,
}

/// Revenue statistics.
#[derive(Debug)]
pub struct BillingStats {
    /// Invoices stored.
    pub invoice_count: usize,
    /// Payments stored.
    pub payment_count: usize,
    /// Subscriptions stored.
    pub subscription_count: usize,
    /// Total of the paid invoices (stops at `u64::MAX`).
    pub revenue_minor: u64,
    /// Total of the open and past-due invoices (stops at `u64::MAX`).
    pub outstanding_minor: u64,
    /// Currency of the first invoice, `USD` without invoices.
    pub currency: String,
}

/// The sum of the totals of the invoices in `s` whose status satisfies
/// `p`, stopping at `u64::MAX`.
pub open spec fn capped_total(s: Seq<InvoiceView>, p: spec_fn(InvoiceStatus) -> bool) -> u64
    decreases s.len(),
{
    if s.len() == 0 {
        0
    } else {
        let rest = capped_total(s.drop_last(), p);
        if p(s.last().status) {
            if rest + s.last().total_minor <= u64::MAX {
                (rest + s.last().total_minor) as u64
            } else {
                u64::MAX
            }
        } else {
            rest
        }
    }
}

/// Whether an invoice counts as revenue.
pub open spec fn is_paid(s: InvoiceStatus) -> bool {
    s == InvoiceStatus::Paid
}

/// Whether an invoice counts as outstanding.
pub open spec fn is_outstanding(s: InvoiceStatus) -> bool {
    s == InvoiceStatus::Open || s == InvoiceStatus::PastDue
}

/// The invoice a request describes, before it is stored: a draft with
/// one line per requested line (total = quantity times unit price), then
/// marked open.
pub fn invoice_from_request(req: &CreateInvoiceRequest) -> (inv: Invoice)
    requires
        request_fits(req.items@),
    ensures
        inv.customer_id@ == req.customer_id@,
        inv.customer_name@ == req.customer_name@,
        inv.currency@ == req.currency@,
        inv.status == InvoiceStatus::Open,
        inv@.items.len() == req.items@.len(),
        forall|i: int| 0 <= i < req.items@.len() ==> #[trigger] inv@.items[i] == requested_line(req.items@[i], req.currency@),
        inv.total_minor == requested_total(req.items@, req.items@.len() as int),
        inv.total_minor == items_total(inv@.items),
{
    let mut invoice = Invoice::new_draft(req.customer_id.as_str(), req.customer_name.as_str(), req.currency.as_str());
    let mut i: usize = 0;
    while i < req.items.len()
        invariant
            i <= req.items@.len(),
            request_fits(req.items@),
            invoice.customer_id@ == req.customer_id@,
            invoice.customer_name@ == req.customer_name@,
            invoice.currency@ == req.currency@,
            invoice@.items.len() == i,
            invoice.total_minor == requested_total(req.items@, i as int),
            invoice.total_minor == items_total(invoice@.items),
            forall|j: int| 0 <= j < i ==> #[trigger] invoice@.items[j] == requested_line(req.items@[j], req.currency@),
        decreases req.items@.len() - i,
    {
        let item = &req.items[i];
        proof {
            assert(item.quantity * item.unit_price_minor <= u64::MAX);
            lemma_requested_total_mono(req.items@, i + 1, req.items@.len() as int);
        }
        let line = InvoiceItem {
            description: item.description.clone(),
            package_id: item.package_id.clone(),
            quantity: item.quantity,
            unit_price_minor: item.unit_price_minor,
            total_minor: item.quantity * item.unit_price_minor,
            currency: req.currency.clone(),
        };
        let ghost before = invoice@.items;
        invoice.add_item(line);
        proof {
            assert forall|j: int| 0 <= j < i + 1 implies #[trigger] invoice@.items[j] == requested_line(
                req.items@[j],
                req.currency@,
            ) by {
                if j < i {
                    assert(invoice@.items[j] == before[j]);
                }
            }
        }
        i = i + 1;
    }
    invoice.mark_open();
    invoice
}

/// Create and store the invoice a request describes.
pub fn create_invoice(store: &mut BillingStore, req: &CreateInvoiceRequest) -> (r: Result<Invoice, BillingError>)
    requires
        old(store).wf(),
        request_fits(req.items@),
    ensures
        final(store).wf(),
        match r {
            Ok(inv) => {
                &&& inv.customer_id@ == req.customer_id@
                &&& inv.status == InvoiceStatus::Open
                &&& inv.total_minor == requested_total(req.items@, req.items@.len() as int)
                &&& final(store).invoices() == old(store).invoices().insert(inv.id@, inv@)
            },
            Err(_) => false,
        },
{
    let invoice = invoice_from_request(req);
    store.create_invoice(invoice)
}

/// Create a pending payment of an invoice's total, by its customer.
pub fn create_payment(store: &mut BillingStore, req: &CreatePaymentRequest) -> (r: Result<Payment, String>)
    requires
        old(store).wf(),
    ensures
        final(store).wf(),
        match r {
            Ok(p) => {
                &&& old(store).invoices().contains_key(req.invoice_id@)
                &&& p.invoice_id@ == req.invoice_id@
                &&& p.customer_id@ == old(store).invoices()[req.invoice_id@].customer_id
                &&& p.amount_minor == old(store).invoices()[req.invoice_id@].total_minor
                &&& p.currency@ == old(store).invoices()[req.invoice_id@].currency
                &&& p.method@ == req.method@
                &&& final(store).payments().contains_key(p.id@)
            },
            Err(m) => !old(store).invoices().contains_key(req.invoice_id@) && m@ == "invoice not found"@
                && final(store).invoices() == old(store).invoices(),
        },
{
    let invoice = match store.get_invoice(req.invoice_id.as_str()) {
        Some(inv) => inv,
        None => {
            return Err("invoice not found".to_owned());
        },
    };
    let payment = Payment::new_pending(
        req.invoice_id.as_str(),
        invoice.customer_id.as_str(),
        invoice.total_minor,
        invoice.currency.as_str(),
        req.method.as_str(),
    );
    match store.create_payment(payment) {
        Ok(p) => Ok(p),
        Err(e) => Err(e.to_string()),
    }
}

/// Create an active subscription and its first invoice.
pub fn create_subscription(store: &mut BillingStore, req: &CreateSubscriptionRequest) -> (r: Result<
    (Subscription, Invoice),
    BillingError,
>)
    requires
        old(store).wf(),
    ensures
        final(store).wf(),
        match r {
            Ok((s, inv)) => {
                &&& s.customer_id@ == req.customer_id@
                &&& s.package_id@ == req.package_id@
                &&& s.price_minor == req.price_minor
                &&& s.currency@ == req.currency@
                &&& s.period_seconds == req.period_seconds
                &&& inv.total_minor == req.price_minor
                &&& inv.customer_name@ == req.customer_name@
                &&& final(store).subscriptions().contains_key(s.id@)
                &&& final(store).invoices().contains_key(inv.id@)
            },
            Err(_) => false,
        },
{
    let sub = Subscription::new_active(
        req.customer_id.as_str(),
        req.package_id.as_str(),
        req.price_minor,
        req.currency.as_str(),
        req.period_seconds,
    );
    let invoice = sub.generate_invoice(req.customer_name.as_str());
    let sub = match store.create_subscription(sub) {
        Ok(s) => s,
        Err(e) => {
            return Err(e);
        },
    };
    let inv = match store.create_invoice(invoice) {
        Ok(i) => i,
        Err(e) => {
            return Err(e);
        },
    };
    Ok((sub, inv))
}

fn capped_sum(invoices: &Vec<Invoice>, paid: bool) -> (t: u64)
    ensures
        t == capped_total(
            models(invoices@),
            if paid {
                |s: InvoiceStatus| is_paid(s)
            } else {
                |s: InvoiceStatus| is_outstanding(s)
            },
        ),
{
    let ghost s = models(invoices@);
    let ghost p = if paid {
        |st: InvoiceStatus| is_paid(st)
    } else {
        |st: InvoiceStatus| is_outstanding(st)
    };
    let mut total: u64 = 0;
    let mut i: usize = 0;
    while i < invoices.len()
        invariant
            i <= invoices@.len(),
            s == models(invoices@),
            p == (if paid {
                |st: InvoiceStatus| is_paid(st)
            } else {
                |st: InvoiceStatus| is_outstanding(st)
            }),
            total == capped_total(s.take(i as int), p),
        decreases invoices@.len() - i,
    {
        assert(s.take(i + 1).drop_last() =~= s.take(i as int));
        assert(s.take(i + 1).last() == invoices@[i as int]@);
        let st = invoices[i].status;
        let counts = if paid {
            st == InvoiceStatus::Paid
        } else {
            st == InvoiceStatus::Open || st == InvoiceStatus::PastDue
        };
        if counts {
            total = total.saturating_add(invoices[i].total_minor);
        }
        i = i + 1;
    }
    assert(s.take(invoices@.len() as int) =~= s);
    total
}

/// The revenue statistics of the store.
pub fn billing_stats(store: &BillingStore) -> (st: BillingStats)
    requires
        store.wf(),
    ensures
        st.invoice_count == store.invoices().len(),
        st.payment_count == store.payments().len(),
        st.subscription_count == store.subscriptions().len(),
        st.revenue_minor == capped_total(store.invoice_table().seq(), |s: InvoiceStatus| is_paid(s)),
        st.outstanding_minor == capped_total(
            store.invoice_table().seq(),
            |s: InvoiceStatus| is_outstanding(s),
        ),
{
    let invoices = store.list_invoices();
    let revenue_minor = capped_sum(&invoices, true);
    let outstanding_minor = capped_sum(&invoices, false);
    let currency = if invoices.len() == 0 {
        "USD".to_owned()
    } else {
        invoices[0].currency.clone()
    };
    BillingStats {
        invoice_count: store.invoice_count(),
        payment_count: store.payment_count(),
        subscription_count: store.subscription_count(),
        revenue_minor,
        outstanding_minor,
        currency,
    }
}

} // verus!
