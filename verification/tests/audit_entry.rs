use nexora::audit::category::AuditCategory;
use nexora::audit::entry::AuditEntry;

#[test]
fn new_entry_defaults() {
    let e = AuditEntry::new("user-1", "login", "session-1");
    assert_eq!(e.actor, "user-1");
    assert_eq!(e.action, "login");
    assert_eq!(e.target, "session-1");
    assert_eq!(e.category, AuditCategory::Other);
    assert!(e.success);
    assert!(e.error.is_none());
    assert!(e.metadata.is_empty());
    assert!(e.timestamp > 0);
    assert!(!e.id.is_empty());
}

#[test]
fn entry_builder_methods() {
    let e = AuditEntry::new("u", "a", "t")
        .with_category(AuditCategory::Auth)
        .with_metadata("ip", "192.168.1.1")
        .with_metadata("ua", "curl/8");
    assert_eq!(e.category, AuditCategory::Auth);
    assert_eq!(e.metadata.len(), 2);
    assert_eq!(e.metadata.get("ip").unwrap(), "192.168.1.1");
}

#[test]
fn with_error_sets_success_false() {
    let e = AuditEntry::new("u", "a", "t").with_error("failed");
    assert!(!e.success);
    assert_eq!(e.error, Some("failed".into()));
}

#[test]
fn with_success_false() {
    let e = AuditEntry::new("u", "a", "t").with_success(false);
    assert!(!e.success);
    assert!(e.error.is_none());
}

#[test]
fn with_timestamp() {
    let e = AuditEntry::new("u", "a", "t").with_timestamp(12345);
    assert_eq!(e.timestamp, 12345);
}

#[test]
fn unique_ids() {
    let e1 = AuditEntry::new("u", "a", "t");
    let e2 = AuditEntry::new("u", "a", "t");
    assert_ne!(e1.id, e2.id);
}

#[test]
fn metadata_same_key_replaces_value() {
    let e = AuditEntry::new("u", "a", "t")
        .with_metadata("ip", "1.1.1.1")
        .with_metadata("ip", "2.2.2.2");
    assert_eq!(e.metadata.len(), 1);
    assert_eq!(e.metadata.get("ip").unwrap(), "2.2.2.2");
    assert!(e.metadata.get("ua").is_none());
}

#[test]
fn entry_id_is_hyphenated_uuid() {
    let e = AuditEntry::new("u", "a", "t");
    assert_eq!(e.id.len(), 36);
}
