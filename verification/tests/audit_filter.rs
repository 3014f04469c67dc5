use nexora::audit::category::AuditCategory;
use nexora::audit::entry::AuditEntry;
use nexora::audit::filter::{AuditFilter, AuditSort};

fn make_entry(actor: &str, action: &str, ts: i64, success: bool) -> AuditEntry {
    AuditEntry::new(actor, action, "target")
        .with_timestamp(ts)
        .with_success(success)
}

#[test]
fn empty_filter_matches_all() {
    let f = AuditFilter::new();
    let e = make_entry("u", "a", 100, true);
    assert!(f.matches(&e));
}

#[test]
fn filter_by_actor() {
    let f = AuditFilter::new().with_actor("alice");
    assert!(f.matches(&make_entry("alice", "x", 0, true)));
    assert!(!f.matches(&make_entry("bob", "x", 0, true)));
}

#[test]
fn filter_by_action() {
    let f = AuditFilter::new().with_action("login");
    assert!(f.matches(&make_entry("u", "login", 0, true)));
    assert!(!f.matches(&make_entry("u", "logout", 0, true)));
}

#[test]
fn filter_by_category() {
    let f = AuditFilter::new().with_category(AuditCategory::Auth);
    let auth_entry = AuditEntry::new("u", "a", "t")
        .with_category(AuditCategory::Auth)
        .with_timestamp(0);
    let billing_entry = AuditEntry::new("u", "a", "t")
        .with_category(AuditCategory::Billing)
        .with_timestamp(0);
    assert!(f.matches(&auth_entry));
    assert!(!f.matches(&billing_entry));
}

#[test]
fn filter_success_only() {
    let f = AuditFilter::new().success_only();
    assert!(f.matches(&make_entry("u", "a", 0, true)));
    assert!(!f.matches(&make_entry("u", "a", 0, false)));
}

#[test]
fn filter_failures_only() {
    let f = AuditFilter::new().failures_only();
    assert!(!f.matches(&make_entry("u", "a", 0, true)));
    assert!(f.matches(&make_entry("u", "a", 0, false)));
}

#[test]
fn filter_by_time_range() {
    let f = AuditFilter::new().from(100).to(200);
    assert!(f.matches(&make_entry("u", "a", 150, true)));
    assert!(!f.matches(&make_entry("u", "a", 50, true)));
    assert!(!f.matches(&make_entry("u", "a", 250, true)));
}

#[test]
fn filter_from_only() {
    let f = AuditFilter::new().from(100);
    assert!(f.matches(&make_entry("u", "a", 100, true)));
    assert!(f.matches(&make_entry("u", "a", 200, true)));
    assert!(!f.matches(&make_entry("u", "a", 50, true)));
}

#[test]
fn filter_to_only() {
    let f = AuditFilter::new().to(100);
    assert!(f.matches(&make_entry("u", "a", 50, true)));
    assert!(f.matches(&make_entry("u", "a", 100, true)));
    assert!(!f.matches(&make_entry("u", "a", 150, true)));
}

#[test]
fn combined_filters() {
    let f = AuditFilter::new()
        .with_actor("alice")
        .with_action("login")
        .with_category(AuditCategory::Auth)
        .success_only()
        .from(100);

    let matching = AuditEntry::new("alice", "login", "session")
        .with_category(AuditCategory::Auth)
        .with_success(true)
        .with_timestamp(150);
    assert!(f.matches(&matching));

    let not_matching = AuditEntry::new("bob", "login", "session")
        .with_category(AuditCategory::Auth)
        .with_success(true)
        .with_timestamp(150);
    assert!(!f.matches(&not_matching));
}

#[test]
fn sort_default() {
    let f = AuditFilter::new();
    assert_eq!(f.sort, AuditSort::NewestFirst);
}

#[test]
fn filter_by_target() {
    let f = AuditFilter::new().with_target("session");
    assert!(f.matches(&AuditEntry::new("u", "a", "session")));
    assert!(!f.matches(&AuditEntry::new("u", "a", "other")));
}
