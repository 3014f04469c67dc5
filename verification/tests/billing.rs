use nexora::billing::store::{BillingError, BillingStore};
use nexora::billing::types::{
    Invoice, InvoiceItem, InvoiceStatus, Payment, PaymentStatus, Subscription, SubscriptionStatus,
};
use nexora::platform::events::EventBus;

fn setup() -> BillingStore {
    BillingStore::new().with_event_bus(EventBus::new())
}

fn sample_invoice(customer: &str, total: u64) -> Invoice {
    let mut inv = Invoice::new_draft(customer, "Test", "USD");
    inv.add_item(InvoiceItem {
        description: "Test item".into(),
        package_id: None,
        quantity: 1,
        unit_price_minor: total,
        total_minor: total,
        currency: "USD".into(),
    });
    inv.mark_open();
    inv
}

#[test]
fn invoice_lifecycle() {
    let mut inv = Invoice::new_draft("u1", "Alice", "USD");
    assert_eq!(inv.status, InvoiceStatus::Draft);
    assert_eq!(inv.total_minor, 0);
    assert_eq!(inv.id.len(), 36);
    assert_eq!(inv.due_at - inv.created_at, 30 * 86_400 * 1_000_000_000);
    inv.add_item(InvoiceItem {
        description: "Item 1".into(),
        package_id: Some("com.test.pkg".into()),
        quantity: 2,
        unit_price_minor: 500,
        total_minor: 1000,
        currency: "USD".into(),
    });
    assert_eq!(inv.total_minor, 1000);
    inv.mark_open();
    assert_eq!(inv.status, InvoiceStatus::Open);
    inv.mark_paid();
    assert_eq!(inv.status, InvoiceStatus::Paid);
    assert!(inv.paid_at.is_some());
}

#[test]
fn payment_lifecycle() {
    let mut pay = Payment::new_pending("inv1", "u1", 1000, "USD", "card");
    assert_eq!(pay.status, PaymentStatus::Pending);
    assert!(pay.processed_at.is_none());
    pay.succeed();
    assert_eq!(pay.status, PaymentStatus::Succeeded);
    assert!(pay.processed_at.is_some());
    let mut pay2 = Payment::new_pending("inv1", "u1", 1000, "USD", "card");
    pay2.fail("insufficient funds");
    assert_eq!(pay2.status, PaymentStatus::Failed);
    assert_eq!(pay2.failure_reason, Some("insufficient funds".into()));
}

#[test]
fn types_subscription_lifecycle() {
    let mut sub = Subscription::new_active("u1", "com.test.pkg", 999, "USD", 2592000);
    assert_eq!(sub.status, SubscriptionStatus::Active);
    assert!(!sub.needs_renewal());
    sub.current_period_end = 0;
    assert!(sub.needs_renewal());
    sub.renew();
    assert!(!sub.needs_renewal());
    sub.cancel();
    assert_eq!(sub.status, SubscriptionStatus::Cancelled);
    assert!(sub.cancelled_at.is_some());
}

#[test]
fn renew_extends_from_current_end_or_from_now() {
    let mut sub = Subscription::new_active("u1", "p", 1, "USD", 10);
    sub.current_period_end = 1_000;
    sub.renew_at(500);
    assert_eq!(sub.current_period_end, 1_000 + 10_000_000_000);
    sub.renew_at(20_000_000_000);
    assert_eq!(sub.current_period_end, 30_000_000_000);
    assert!(sub.needs_renewal_at(30_000_000_000));
    assert!(!sub.needs_renewal_at(29_999_999_999));
}

#[test]
fn subscription_generates_invoice() {
    let sub = Subscription::new_active("u1", "com.test.pkg", 999, "USD", 2592000);
    let inv = sub.generate_invoice("Alice");
    assert_eq!(inv.customer_id, "u1");
    assert_eq!(inv.total_minor, 999);
    assert_eq!(inv.status, InvoiceStatus::Open);
    assert_eq!(inv.subscription_id, Some(sub.id.clone()));
    assert_eq!(inv.items.len(), 1);
    assert_eq!(inv.items[0].description, "Subscription: com.test.pkg (1 period)");
}

#[test]
fn status_names() {
    assert_eq!(InvoiceStatus::PastDue.to_string(), "past_due");
    assert_eq!(PaymentStatus::Succeeded.to_string(), "succeeded");
    assert_eq!(SubscriptionStatus::Cancelled.to_string(), "cancelled");
}

#[test]
fn create_and_get_invoice() {
    let mut store = setup();
    let inv = store.create_invoice(sample_invoice("u1", 1000)).unwrap();
    assert!(store.get_invoice(&inv.id).is_some());
    assert_eq!(store.invoice_count(), 1);
}

#[test]
fn list_invoices_for_customer() {
    let mut store = setup();
    store.create_invoice(sample_invoice("u1", 1000)).unwrap();
    store.create_invoice(sample_invoice("u1", 2000)).unwrap();
    store.create_invoice(sample_invoice("u2", 500)).unwrap();
    let u1 = store.list_invoices_for_customer("u1");
    assert_eq!(u1.len(), 2);
    assert_eq!(u1[0].total_minor, 1000);
    assert_eq!(u1[1].total_minor, 2000);
    assert_eq!(store.list_invoices_for_customer("u2").len(), 1);
    assert_eq!(store.list_invoices_for_customer("u3").len(), 0);
    assert_eq!(store.list_invoices().len(), 3);
}

#[test]
fn payment_succeeds_and_marks_invoice_paid() {
    let mut store = setup();
    let inv = store.create_invoice(sample_invoice("u1", 1000)).unwrap();
    let pay = store.create_payment(Payment::new_pending(&inv.id, "u1", 1000, "USD", "card")).unwrap();
    assert_eq!(store.get_invoice(&inv.id).unwrap().payment_ids, vec![pay.id.clone()]);
    let (pay, inv) = store.succeed_payment(&pay.id).unwrap();
    assert_eq!(pay.status, PaymentStatus::Succeeded);
    assert!(inv.is_some());
    assert_eq!(inv.unwrap().status, InvoiceStatus::Paid);
}

#[test]
fn payment_wrong_amount_fails() {
    let mut store = setup();
    let inv = store.create_invoice(sample_invoice("u1", 1000)).unwrap();
    let pay = store.create_payment(Payment::new_pending(&inv.id, "u1", 500, "USD", "card")).unwrap();
    let err = store.succeed_payment(&pay.id).unwrap_err();
    assert!(matches!(err, BillingError::AmountMismatch { paid: 500, expected: 1000 }));
    assert_eq!(store.get_payment(&pay.id).unwrap().status, PaymentStatus::Succeeded);
    assert_eq!(store.get_invoice(&inv.id).unwrap().status, InvoiceStatus::Open);
}

#[test]
fn payment_without_stored_invoice_succeeds_alone() {
    let mut store = setup();
    let pay = store.create_payment(Payment::new_pending("nope", "u1", 500, "USD", "card")).unwrap();
    let (pay, inv) = store.succeed_payment(&pay.id).unwrap();
    assert_eq!(pay.status, PaymentStatus::Succeeded);
    assert!(inv.is_none());
    assert!(matches!(store.succeed_payment(&pay.id), Err(BillingError::PaymentWrongState { .. })));
}

#[test]
fn fail_payment_records_reason() {
    let mut store = setup();
    let pay = store.create_payment(Payment::new_pending("i", "u1", 500, "USD", "card")).unwrap();
    let failed = store.fail_payment(&pay.id, "declined").unwrap();
    assert_eq!(failed.status, PaymentStatus::Failed);
    assert_eq!(failed.failure_reason, Some("declined".to_string()));
    assert!(matches!(store.fail_payment("missing", "x"), Err(BillingError::PaymentNotFound(_))));
    assert_eq!(store.payment_count(), 1);
    assert_eq!(store.list_payments().len(), 1);
}

#[test]
fn store_subscription_lifecycle() {
    let mut store = setup();
    let sub = Subscription::new_active("u1", "com.test.pkg", 999, "USD", 1);
    let sub = store.create_subscription(sub).unwrap();
    assert_eq!(store.subscription_count(), 1);
    let later = sub.current_period_end + 1;
    let renewals = store.process_renewals_at(later, |_| "Alice".into());
    assert_eq!(renewals.len(), 1);
    assert_eq!(renewals[0].1.total_minor, 999);
    assert_eq!(renewals[0].1.customer_name, "Alice");
    assert_eq!(renewals[0].0.current_period_end, later + 1_000_000_000);
    assert_eq!(store.list_subscriptions_for_customer("u1").len(), 1);
    assert_eq!(store.list_invoices_for_customer("u1").len(), 1);
    let sub = store.cancel_subscription(&sub.id).unwrap();
    assert_eq!(sub.status, SubscriptionStatus::Cancelled);
    assert!(store.process_renewals_at(later + 10_000_000_000, |_| "Alice".into()).is_empty());
    assert!(matches!(store.cancel_subscription(&sub.id), Err(BillingError::SubscriptionWrongState { .. })));
    assert_eq!(store.list_subscriptions().len(), 1);
}

#[test]
fn renew_subscription_creates_invoice() {
    let mut store = setup();
    let sub = store.create_subscription(Subscription::new_active("u9", "pkg", 250, "EUR", 60)).unwrap();
    let (renewed, inv) = store.renew_subscription(&sub.id, "Bob").unwrap();
    assert!(renewed.current_period_end > sub.current_period_end);
    assert_eq!(inv.total_minor, 250);
    assert_eq!(inv.subscription_id, Some(sub.id.clone()));
    assert!(store.get_invoice(&inv.id).is_some());
    assert!(matches!(store.renew_subscription("zzz", "Bob"), Err(BillingError::SubscriptionNotFound(_))));
}

#[test]
fn void_invoice_works() {
    let mut store = setup();
    let inv = store.create_invoice(sample_invoice("u1", 1000)).unwrap();
    let inv = store.void_invoice(&inv.id).unwrap();
    assert_eq!(inv.status, InvoiceStatus::Void);
}

#[test]
fn cannot_void_paid_invoice() {
    let mut store = setup();
    let inv = store.create_invoice(sample_invoice("u1", 1000)).unwrap();
    let pay = store.create_payment(Payment::new_pending(&inv.id, "u1", 1000, "USD", "card")).unwrap();
    store.succeed_payment(&pay.id).unwrap();
    let err = store.void_invoice(&inv.id).unwrap_err();
    assert!(matches!(err, BillingError::InvoiceWrongState { .. }));
}

#[test]
fn mark_invoice_paid_requires_open_invoice() {
    let mut store = setup();
    let draft = store.create_invoice(Invoice::new_draft("u1", "A", "USD")).unwrap();
    assert!(matches!(
        store.mark_invoice_paid(&draft.id),
        Err(BillingError::InvoiceWrongState { state: InvoiceStatus::Draft, expected: InvoiceStatus::Open, .. })
    ));
    let open = store.create_invoice(sample_invoice("u1", 5)).unwrap();
    assert_eq!(store.mark_invoice_paid(&open.id).unwrap().status, InvoiceStatus::Paid);
    assert!(matches!(store.mark_invoice_paid("x"), Err(BillingError::InvoiceNotFound(_))));
}

#[test]
fn store_events_emitted() {
    let mut store = BillingStore::new().with_event_bus(EventBus::new());
    let inv = store.create_invoice(sample_invoice("u1", 1000)).unwrap();
    let pay = store.create_payment(Payment::new_pending(&inv.id, "u1", 1000, "USD", "card")).unwrap();
    store.succeed_payment(&pay.id).unwrap();
    let events = store.events().unwrap().replay_filtered(0, "");
    let names: Vec<&str> = events.iter().map(|e| e.name.as_str()).collect();
    assert!(names.contains(&"invoice.created"));
    assert!(names.contains(&"payment.created"));
    assert!(names.contains(&"payment.succeeded"));
    assert!(names.contains(&"invoice.paid"));
}
