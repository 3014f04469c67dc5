use nexora::audit::category::AuditCategory;
use nexora::audit::entry::AuditEntry;
use nexora::audit::filter::{AuditFilter, AuditSort};
use nexora::audit::logger::AuditLogger;

fn make_entry(actor: &str, action: &str, ts: i64, success: bool) -> AuditEntry {
    AuditEntry::new(actor, action, "target")
        .with_timestamp(ts)
        .with_success(success)
        .with_category(AuditCategory::Auth)
}

#[test]
fn log_and_get() {
    let mut logger = AuditLogger::default();
    let e = make_entry("alice", "login", 100, true);
    let id = logger.log(e);
    assert_eq!(logger.count(), 1);
    assert!(logger.get(&id).is_some());
}

#[test]
fn query_by_actor() {
    let mut logger = AuditLogger::default();
    logger.log(make_entry("alice", "login", 100, true));
    logger.log(make_entry("bob", "login", 200, true));
    logger.log(make_entry("alice", "logout", 300, true));

    let result = logger.query(&AuditFilter::new().with_actor("alice"));
    assert_eq!(result.total, 2);
    assert_eq!(result.entries.len(), 2);
}

#[test]
fn query_with_limit() {
    let mut logger = AuditLogger::default();
    for i in 0..50 {
        logger.log(make_entry("u", "a", i, true));
    }
    let result = logger.query(&AuditFilter::new().with_limit(10));
    assert_eq!(result.total, 50);
    assert_eq!(result.entries.len(), 10);
}

#[test]
fn query_with_offset() {
    let mut logger = AuditLogger::default();
    for i in 0..20 {
        logger.log(make_entry("u", "a", i, true));
    }
    let result = logger.query(&AuditFilter::new().with_limit(10).with_offset(10));
    assert_eq!(result.total, 20);
    assert_eq!(result.entries.len(), 10);
}

#[test]
fn query_newest_first() {
    let mut logger = AuditLogger::default();
    logger.log(make_entry("u", "a", 100, true));
    logger.log(make_entry("u", "a", 300, true));
    logger.log(make_entry("u", "a", 200, true));

    let result = logger.query(&AuditFilter::new().with_limit(3));
    assert_eq!(result.entries[0].timestamp, 300);
    assert_eq!(result.entries[1].timestamp, 200);
    assert_eq!(result.entries[2].timestamp, 100);
}

#[test]
fn query_oldest_first() {
    let mut logger = AuditLogger::default();
    logger.log(make_entry("u", "a", 300, true));
    logger.log(make_entry("u", "a", 100, true));
    logger.log(make_entry("u", "a", 200, true));

    let result = logger.query(&AuditFilter::new().with_limit(3).with_sort(AuditSort::OldestFirst));
    assert_eq!(result.entries[0].timestamp, 100);
    assert_eq!(result.entries[1].timestamp, 200);
    assert_eq!(result.entries[2].timestamp, 300);
}

#[test]
fn query_failures_only() {
    let mut logger = AuditLogger::default();
    logger.log(make_entry("u", "a", 100, true));
    logger.log(make_entry("u", "a", 200, false));
    logger.log(make_entry("u", "a", 300, true));

    let result = logger.query(&AuditFilter::new().failures_only());
    assert_eq!(result.total, 1);
    assert!(!result.entries[0].success);
}

#[test]
fn query_by_category() {
    let mut logger = AuditLogger::default();
    logger.log(AuditEntry::new("u", "a", "t").with_category(AuditCategory::Auth));
    logger.log(AuditEntry::new("u", "a", "t").with_category(AuditCategory::Billing));
    logger.log(AuditEntry::new("u", "a", "t").with_category(AuditCategory::Auth));

    let result = logger.query(&AuditFilter::new().with_category(AuditCategory::Auth));
    assert_eq!(result.total, 2);
}

#[test]
fn count_for_actor() {
    let mut logger = AuditLogger::default();
    logger.log(make_entry("alice", "a", 0, true));
    logger.log(make_entry("alice", "b", 0, true));
    logger.log(make_entry("bob", "c", 0, true));
    assert_eq!(logger.count_for_actor("alice"), 2);
    assert_eq!(logger.count_for_actor("bob"), 1);
    assert_eq!(logger.count_for_actor("nobody"), 0);
}

#[test]
fn count_by_category() {
    let mut logger = AuditLogger::default();
    logger.log(AuditEntry::new("u", "a", "t").with_category(AuditCategory::Auth));
    logger.log(AuditEntry::new("u", "a", "t").with_category(AuditCategory::Auth));
    logger.log(AuditEntry::new("u", "a", "t").with_category(AuditCategory::Billing));

    let counts = logger.count_by_category();
    assert_eq!(counts.get(&AuditCategory::Auth), Some(&2));
    assert_eq!(counts.get(&AuditCategory::Billing), Some(&1));
}

#[test]
fn clear_empties_log() {
    let mut logger = AuditLogger::default();
    logger.log(make_entry("u", "a", 0, true));
    assert_eq!(logger.count(), 1);
    logger.clear();
    assert_eq!(logger.count(), 0);
}

#[test]
fn max_entries_eviction() {
    let mut logger = AuditLogger::new(3);
    let id1 = logger.log(make_entry("u", "a", 100, true));
    logger.log(make_entry("u", "a", 200, true));
    logger.log(make_entry("u", "a", 300, true));
    logger.log(make_entry("u", "a", 400, true));

    assert_eq!(logger.count(), 3);
    assert!(logger.get(&id1).is_none());
}

#[test]
fn stats() {
    let mut logger = AuditLogger::default();
    logger.log(make_entry("u", "a", 0, true));
    logger.log(make_entry("u", "a", 0, true));
    logger.log(make_entry("u", "a", 0, false));
    let stats = logger.stats();
    assert_eq!(stats.total, 3);
    assert_eq!(stats.success, 2);
    assert_eq!(stats.failure, 1);
}

#[test]
fn query_time_range() {
    let mut logger = AuditLogger::default();
    logger.log(make_entry("u", "a", 100, true));
    logger.log(make_entry("u", "a", 200, true));
    logger.log(make_entry("u", "a", 300, true));

    let result = logger.query(&AuditFilter::new().from(150).to(250));
    assert_eq!(result.total, 1);
    assert_eq!(result.entries[0].timestamp, 200);
}

#[test]
fn query_empty_filter_returns_all() {
    let mut logger = AuditLogger::default();
    logger.log(make_entry("u", "a", 0, true));
    logger.log(make_entry("u", "a", 0, true));
    let result = logger.query(&AuditFilter::new());
    assert_eq!(result.total, 2);
}

#[test]
fn ties_keep_log_order() {
    let mut logger = AuditLogger::default();
    logger.log(make_entry("first", "a", 100, true));
    logger.log(make_entry("second", "a", 100, true));
    logger.log(make_entry("third", "a", 50, true));
    let newest = logger.query(&AuditFilter::new());
    assert_eq!(newest.entries[0].actor, "first");
    assert_eq!(newest.entries[1].actor, "second");
    assert_eq!(newest.entries[2].actor, "third");
    let oldest = logger.query(&AuditFilter::new().with_sort(AuditSort::OldestFirst));
    assert_eq!(oldest.entries[0].actor, "third");
    assert_eq!(oldest.entries[1].actor, "first");
    assert_eq!(oldest.entries[2].actor, "second");
}

#[test]
fn offset_past_end_gives_empty_page() {
    let mut logger = AuditLogger::default();
    logger.log(make_entry("u", "a", 1, true));
    let r = logger.query(&AuditFilter::new().with_offset(5));
    assert_eq!(r.total, 1);
    assert!(r.entries.is_empty());
    assert_eq!(r.limit, 100);
    assert_eq!(r.offset, 5);
}

#[test]
fn zero_capacity_keeps_nothing() {
    let mut logger = AuditLogger::new(0);
    logger.log(make_entry("u", "a", 1, true));
    assert_eq!(logger.count(), 0);
}

#[test]
fn get_returns_latest_with_id() {
    let mut logger = AuditLogger::default();
    let mut a = make_entry("a", "x", 1, true);
    a.id = "same".to_string();
    let mut b = make_entry("b", "x", 2, true);
    b.id = "same".to_string();
    logger.log(a);
    logger.log(b);
    assert_eq!(logger.get(&"same".to_string()).unwrap().actor, "b");
}
