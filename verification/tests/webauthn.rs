use nexora::auth::webauthn::{hash_data, Challenge, WebAuthnManager};

fn registered(mgr: &mut WebAuthnManager, user: &str, cred: &str) {
    mgr.begin_registration(user);
    mgr.complete_registration(user, "r", cred, "pk", "yubikey", "l").unwrap();
}

#[test]
fn challenge_generate_is_unique() {
    let c1 = Challenge::generate();
    let c2 = Challenge::generate();
    assert_ne!(c1.challenge, c2.challenge);
    assert!(!c1.challenge.is_empty());
}

#[test]
fn challenge_not_expired_immediately() {
    let c = Challenge::generate();
    assert!(!c.is_expired());
}

#[test]
fn begin_registration_creates_challenge() {
    let mut mgr = WebAuthnManager::new();
    let challenge = mgr.begin_registration("alice");
    assert!(!challenge.challenge.is_empty());
}

#[test]
fn complete_registration_succeeds() {
    let mut mgr = WebAuthnManager::new();
    let _challenge = mgr.begin_registration("alice");
    let result = mgr
        .complete_registration("alice", "response", "cred-1", "pub-key-1", "yubikey", "مفتاحي")
        .unwrap();
    assert_eq!(result.credential_id, "cred-1");
    assert!(mgr.is_registered("alice"));
}

#[test]
fn complete_registration_no_challenge_fails() {
    let mut mgr = WebAuthnManager::new();
    let result = mgr.complete_registration("alice", "r", "c", "p", "t", "l");
    assert!(result.is_err());
}

#[test]
fn duplicate_credential_id_fails() {
    let mut mgr = WebAuthnManager::new();
    mgr.begin_registration("alice");
    mgr.complete_registration("alice", "r", "cred-1", "pk", "yubikey", "l").unwrap();

    mgr.begin_registration("alice");
    let result = mgr.complete_registration("alice", "r", "cred-1", "pk2", "yubikey", "l2");
    assert!(result.is_err());
}

#[test]
fn begin_authentication_without_credentials_fails() {
    let mut mgr = WebAuthnManager::new();
    assert!(mgr.begin_authentication("alice").is_err());
}

#[test]
fn full_auth_flow() {
    let mut mgr = WebAuthnManager::new();
    mgr.begin_registration("alice");
    mgr.complete_registration("alice", "r", "cred-1", "pk", "yubikey", "مفتاح").unwrap();

    mgr.begin_authentication("alice").unwrap();
    mgr.complete_authentication("alice", "cred-1", "sig", 1).unwrap();

    let creds = mgr.list_credentials("alice");
    assert_eq!(creds.len(), 1);
    assert_eq!(creds[0].sign_count, 1);
    assert!(creds[0].last_used_at.is_some());
}

#[test]
fn sign_count_replay_protection() {
    let mut mgr = WebAuthnManager::new();
    registered(&mut mgr, "alice", "cred-1");

    mgr.begin_authentication("alice").unwrap();
    mgr.complete_authentication("alice", "cred-1", "sig", 5).unwrap();

    mgr.begin_authentication("alice").unwrap();
    let result = mgr.complete_authentication("alice", "cred-1", "sig", 3);
    assert!(result.is_err());
}

#[test]
fn empty_signature_rejected() {
    let mut mgr = WebAuthnManager::new();
    registered(&mut mgr, "alice", "cred-1");

    mgr.begin_authentication("alice").unwrap();
    let result = mgr.complete_authentication("alice", "cred-1", "", 1);
    assert!(result.is_err());
}

#[test]
fn list_credentials() {
    let mut mgr = WebAuthnManager::new();
    mgr.begin_registration("alice");
    mgr.complete_registration("alice", "r", "c1", "pk1", "t1", "l1").unwrap();
    mgr.begin_registration("alice");
    mgr.complete_registration("alice", "r", "c2", "pk2", "t2", "l2").unwrap();

    let creds = mgr.list_credentials("alice");
    assert_eq!(creds.len(), 2);
}

#[test]
fn remove_credential() {
    let mut mgr = WebAuthnManager::new();
    mgr.begin_registration("alice");
    mgr.complete_registration("alice", "r", "c1", "pk1", "t1", "l1").unwrap();

    assert!(mgr.remove_credential("alice", "c1"));
    assert!(!mgr.is_registered("alice"));
}

#[test]
fn remove_nonexistent_credential() {
    let mut mgr = WebAuthnManager::new();
    assert!(!mgr.remove_credential("alice", "nonexistent"));
}

#[test]
fn registered_count() {
    let mut mgr = WebAuthnManager::new();
    assert_eq!(mgr.registered_count(), 0);

    registered(&mut mgr, "alice", "c1");
    assert_eq!(mgr.registered_count(), 1);

    registered(&mut mgr, "bob", "c2");
    assert_eq!(mgr.registered_count(), 2);
}

#[test]
fn hash_data_deterministic() {
    let h1 = hash_data(b"test");
    let h2 = hash_data(b"test");
    assert_eq!(h1, h2);
    assert_eq!(h1.len(), 64);
}

#[test]
fn hash_data_different_inputs() {
    let h1 = hash_data(b"hello");
    let h2 = hash_data(b"world");
    assert_ne!(h1, h2);
}

#[test]
fn multiple_users_independent() {
    let mut mgr = WebAuthnManager::new();
    registered(&mut mgr, "alice", "c1");
    registered(&mut mgr, "bob", "c1");

    assert!(mgr.is_registered("alice"));
    assert!(mgr.is_registered("bob"));
}

#[test]
fn cleanup_expired_challenges() {
    let mut mgr = WebAuthnManager::new();
    // A challenge created at the epoch is long expired.
    mgr.begin_registration_at("alice", 0);

    let cleaned = mgr.cleanup_expired_challenges();
    assert_eq!(cleaned, 1);
}

#[test]
fn hash_data_known_digest() {
    assert_eq!(hash_data(b"abc"), "ba7816bf8f01cfea414140de5dae2223b00361a396177a9cb410ff61f20015ad");
}

#[test]
fn challenge_expiry_boundary() {
    let c = Challenge::generate_at(0);
    assert!(!c.is_expired_at(300_999_999_999));
    assert!(c.is_expired_at(301_000_000_000));
}

#[test]
fn cleanup_keeps_fresh_challenges() {
    let mut mgr = WebAuthnManager::new();
    mgr.begin_registration_at("alice", 1_000_000_000_000);
    mgr.begin_registration_at("alice", 0);
    assert_eq!(mgr.cleanup_expired_challenges_at(1_000_000_000_001), 1);
    mgr.complete_registration_at("alice", "r", "c1", "pk", "t", "l", 1_000_000_000_002).unwrap();
    assert!(mgr.is_registered("alice"));
}

#[test]
fn expired_challenge_is_not_consumed() {
    let mut mgr = WebAuthnManager::new();
    mgr.begin_registration_at("alice", 0);
    let r = mgr.complete_registration_at("alice", "r", "c1", "pk", "t", "l", 400_000_000_000);
    assert_eq!(r.unwrap_err(), "لا يوجد تحدي صالح");
}
