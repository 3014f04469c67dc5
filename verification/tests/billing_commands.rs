use nexora::billing::handler::{
    billing_stats, create_invoice, create_payment, create_subscription, CreateInvoiceItem, CreateInvoiceRequest,
    CreatePaymentRequest, CreateSubscriptionRequest,
};
use nexora::billing::store::{BillingError, BillingStore};
use nexora::billing::types::{InvoiceStatus, PaymentStatus, SubscriptionStatus};

fn invoice_request(quantity: u64, unit: u64) -> CreateInvoiceRequest {
    CreateInvoiceRequest {
        customer_id: "u1".into(),
        customer_name: "Alice".into(),
        currency: "USD".into(),
        items: vec![CreateInvoiceItem { description: "Test".into(), package_id: None, quantity, unit_price_minor: unit }],
    }
}

#[test]
fn command_create_invoice_totals_lines() {
    let mut store = BillingStore::new();
    let inv = create_invoice(&mut store, &invoice_request(2, 500)).unwrap();
    assert_eq!(inv.total_minor, 1000);
    assert_eq!(inv.status, InvoiceStatus::Open);
    assert_eq!(inv.items[0].total_minor, 1000);
    assert_eq!(store.list_invoices().len(), 1);
}

#[test]
fn command_payment_then_success() {
    let mut store = BillingStore::new();
    let inv = create_invoice(&mut store, &invoice_request(1, 999)).unwrap();
    let pay = create_payment(&mut store, &CreatePaymentRequest { invoice_id: inv.id.clone(), method: "card".into() })
        .unwrap();
    assert_eq!(pay.amount_minor, 999);
    let (pay, inv) = store.succeed_payment(&pay.id).unwrap();
    assert_eq!(pay.status, PaymentStatus::Succeeded);
    assert_eq!(inv.unwrap().status, InvoiceStatus::Paid);
    let err = create_payment(&mut store, &CreatePaymentRequest { invoice_id: "nope".into(), method: "card".into() })
        .unwrap_err();
    assert_eq!(err, "invoice not found");
}

#[test]
fn command_subscription_creates_first_invoice() {
    let mut store = BillingStore::new();
    let req = CreateSubscriptionRequest {
        customer_id: "u1".into(),
        customer_name: "Alice".into(),
        package_id: "com.test.pkg".into(),
        price_minor: 999,
        currency: "USD".into(),
        period_seconds: 2_592_000,
    };
    let (sub, inv) = create_subscription(&mut store, &req).unwrap();
    assert_eq!(sub.status, SubscriptionStatus::Active);
    assert_eq!(inv.total_minor, 999);
}

#[test]
fn command_stats_split_revenue_and_outstanding() {
    let mut store = BillingStore::new();
    create_invoice(&mut store, &invoice_request(1, 1000)).unwrap();
    let stats = billing_stats(&store);
    assert_eq!(stats.invoice_count, 1);
    assert_eq!(stats.outstanding_minor, 1000);
    assert_eq!(stats.revenue_minor, 0);
    assert_eq!(stats.currency, "USD");
    let empty = billing_stats(&BillingStore::new());
    assert_eq!(empty.currency, "USD");
}

#[test]
fn billing_error_messages() {
    assert_eq!(BillingError::InvoiceNotFound("x".into()).to_string(), "invoice not found: x");
    assert_eq!(
        BillingError::AmountMismatch { paid: 5, expected: 10 }.to_string(),
        "payment amount (5) doesn't match invoice total (10)"
    );
}
