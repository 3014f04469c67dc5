use nexora::auth::mfa::{MfaManager, MfaState, MfaVerifyResult, TotpSecretData};
use nexora::auth::totp::{generate_code_at, generate_current_code, TotpSecret};

fn enrolled(mgr: &mut MfaManager, user: &str) -> nexora::auth::mfa::MfaEnrollment {
    let enrollment = mgr.begin_enrollment(user);
    let code = generate_current_code(&enrollment.secret);
    mgr.complete_enrollment(user, &enrollment, &code).unwrap();
    enrollment
}

#[test]
fn begin_enrollment_generates_secret_and_url() {
    let mgr = MfaManager::new();
    let enrollment = mgr.begin_enrollment("alice");
    assert_eq!(enrollment.secret.bytes.len(), 20);
    assert!(enrollment.otpauth_url.starts_with("otpauth://totp/"));
    assert_eq!(enrollment.backup_codes.len(), 10);
}

#[test]
fn complete_enrollment_with_valid_code() {
    let mut mgr = MfaManager::new();
    enrolled(&mut mgr, "alice");
    assert!(mgr.is_enrolled("alice"));
}

#[test]
fn complete_enrollment_with_invalid_code() {
    let mut mgr = MfaManager::new();
    let enrollment = mgr.begin_enrollment("alice");
    let code = generate_code_at(&enrollment.secret, 1000);
    let result = mgr.complete_enrollment_at("alice", &enrollment, "x00000", 1000);
    assert!(result.is_err());
    assert!(!mgr.is_enrolled("alice"));
    assert!(mgr.complete_enrollment_at("alice", &enrollment, &code, 1000).is_ok());
    assert!(mgr.is_enrolled("alice"));
}

#[test]
fn verify_valid_totp_code() {
    let mut mgr = MfaManager::new();
    let enrollment = enrolled(&mut mgr, "alice");
    let new_code = generate_current_code(&enrollment.secret);
    assert_eq!(mgr.verify("alice", &new_code), MfaVerifyResult::Valid);
}

#[test]
fn verify_invalid_code() {
    let mut mgr = MfaManager::new();
    let enrollment = mgr.begin_enrollment("alice");
    let code = generate_code_at(&enrollment.secret, 500);
    mgr.complete_enrollment_at("alice", &enrollment, &code, 500).unwrap();
    assert_eq!(mgr.verify_at("alice", "abcdef", 500), MfaVerifyResult::Invalid);
}

#[test]
fn verify_for_unenrolled_user() {
    let mut mgr = MfaManager::new();
    assert_eq!(mgr.verify("bob", "123456"), MfaVerifyResult::NotEnrolled);
}

#[test]
fn verify_backup_code() {
    let mut mgr = MfaManager::new();
    let enrollment = enrolled(&mut mgr, "alice");
    let backup = enrollment.backup_codes[0].clone();
    assert_eq!(mgr.verify("alice", &backup), MfaVerifyResult::Valid);
}

#[test]
fn backup_code_cannot_be_reused() {
    let mut mgr = MfaManager::new();
    let enrollment = enrolled(&mut mgr, "alice");
    let backup = enrollment.backup_codes[0].clone();
    assert_eq!(mgr.verify("alice", &backup), MfaVerifyResult::Valid);
    assert_eq!(mgr.verify("alice", &backup), MfaVerifyResult::AlreadyUsed);
}

#[test]
fn disable_mfa() {
    let mut mgr = MfaManager::new();
    enrolled(&mut mgr, "alice");
    assert!(mgr.is_enrolled("alice"));
    assert!(mgr.disable("alice"));
    assert!(!mgr.is_enrolled("alice"));
    assert_eq!(mgr.verify("alice", "123456"), MfaVerifyResult::NotEnrolled);
}

#[test]
fn disable_nonexistent_returns_false() {
    let mut mgr = MfaManager::new();
    assert!(!mgr.disable("nobody"));
}

#[test]
fn enrolled_count() {
    let mut mgr = MfaManager::new();
    assert_eq!(mgr.enrolled_count(), 0);
    enrolled(&mut mgr, "alice");
    assert_eq!(mgr.enrolled_count(), 1);
    enrolled(&mut mgr, "bob");
    assert_eq!(mgr.enrolled_count(), 2);
    mgr.disable("alice");
    assert_eq!(mgr.enrolled_count(), 1);
}

#[test]
fn regenerate_backup_codes() {
    let mut mgr = MfaManager::new();
    let enrollment = enrolled(&mut mgr, "alice");
    let old_codes = enrollment.backup_codes.clone();
    let new_codes = mgr.regenerate_backup_codes("alice").unwrap();
    assert_eq!(new_codes.len(), 10);
    assert_ne!(old_codes, new_codes);
    let old_backup = old_codes[0].clone();
    if !new_codes.contains(&old_backup) {
        assert_eq!(mgr.verify("alice", &old_backup), MfaVerifyResult::Invalid);
    }
    let new_backup = new_codes[0].clone();
    assert_eq!(mgr.verify("alice", &new_backup), MfaVerifyResult::Valid);
}

#[test]
fn regenerate_for_nonexistent_fails() {
    let mut mgr = MfaManager::new();
    assert_eq!(mgr.regenerate_backup_codes("nobody").unwrap_err(), "المستخدم غير موجود");
}

#[test]
fn get_state_returns_enabled_state() {
    let mut mgr = MfaManager::new();
    enrolled(&mut mgr, "alice");
    let state = mgr.get_state("alice").unwrap();
    assert!(state.enabled);
    assert!(state.secret.is_some());
    assert_eq!(state.backup_codes.len(), 10);
    assert!(state.enabled_at.is_some());
    assert!(state.used_backup_codes.is_empty());
}

#[test]
fn totp_secret_data_roundtrip() {
    let secret = TotpSecret::generate();
    let data = TotpSecretData::from_secret(&secret);
    let recovered = data.to_secret().unwrap();
    assert_eq!(secret.bytes, recovered.bytes);
}

#[test]
fn secret_data_is_lower_hex_and_rejects_garbage() {
    let data = TotpSecretData::from_secret(&TotpSecret::from_bytes(vec![0xde, 0xad, 0x01]));
    assert_eq!(data.hex_bytes, "dead01");
    let bad = TotpSecretData { hex_bytes: "abc".to_string() };
    assert!(bad.to_secret().unwrap_err().starts_with("فشل فك تشفير hex: "));
}

#[test]
fn new_state_is_disabled() {
    let s = MfaState::new("carol");
    assert!(!s.is_enabled());
    assert!(s.secret.is_none());
}
