use nexora::audit::category::AuditCategory;

#[test]
fn all_categories_have_strings() {
    for c in AuditCategory::ALL {
        assert!(!c.as_str().is_empty());
    }
}

#[test]
fn roundtrip_all_categories() {
    for c in AuditCategory::ALL {
        let s = c.as_str();
        let back: AuditCategory = s.parse().unwrap();
        assert_eq!(*c, back);
    }
}

#[test]
fn unknown_category_fails() {
    assert!("nonexistent".parse::<AuditCategory>().is_err());
}

#[test]
fn display_matches_as_str() {
    assert_eq!(AuditCategory::Auth.to_string(), "auth");
    assert_eq!(AuditCategory::Billing.to_string(), "billing");
}

#[test]
fn all_count() {
    assert_eq!(AuditCategory::ALL.len(), 13);
}

#[test]
fn unknown_category_message_names_input() {
    let err = AuditCategory::parse("bogus").unwrap_err();
    assert_eq!(err, "فئة تدقيق غير معروفة: bogus");
}

#[test]
fn parse_is_case_sensitive() {
    assert!(AuditCategory::parse("Auth").is_err());
    assert_eq!(AuditCategory::parse("user_management").unwrap(), AuditCategory::UserManagement);
}
