use nexora::auth::store::SessionStore;
use nexora::auth::token::{
    decode_token_text, encode_token_bytes, frame, split_frame, SessionToken, TokenClaims, TokenError, TokenVerifier,
    DEFAULT_TOKEN_TTL_NANOS,
};

fn claims_bytes(c: &TokenClaims) -> Vec<u8> {
    rmp_serde::to_vec(&(c.sub.as_str(), c.iat, c.exp, c.ver)).unwrap()
}

fn issue(v: &mut TokenVerifier, user: &str, ttl: u64, now: i64) -> SessionToken {
    let claims = v.issue_claims_at(user, ttl, now);
    let signature = v.sign(&claims_bytes(&claims));
    SessionToken { claims, signature }
}

fn check(v: &TokenVerifier, t: &SessionToken, now: i64) -> Result<TokenClaims, TokenError> {
    v.verify_at(t, &claims_bytes(&t.claims), now)
}

const NOW: i64 = 1_700_000_000_000_000_000;

#[test]
fn issue_and_verify_roundtrip() {
    let mut v = TokenVerifier::new();
    let token = issue(&mut v, "user-1", DEFAULT_TOKEN_TTL_NANOS, NOW);
    let claims = check(&v, &token, NOW).unwrap();
    assert_eq!(claims.sub, "user-1");
    assert_eq!(claims.ver, 1);
    assert_eq!(claims.exp, NOW + 3_600_000_000_000);
}

#[test]
fn expired_token_rejected() {
    let mut v = TokenVerifier::new();
    let token = issue(&mut v, "user-1", 1_000_000, NOW);
    assert!(matches!(check(&v, &token, NOW + 10_000_000), Err(TokenError::Expired)));
    assert!(check(&v, &token, NOW + 1_000_000).is_ok());
}

#[test]
fn revoke_invalidates_token() {
    let mut v = TokenVerifier::new();
    let token = issue(&mut v, "user-1", DEFAULT_TOKEN_TTL_NANOS, NOW);
    check(&v, &token, NOW).unwrap();
    v.revoke("user-1");
    assert!(matches!(check(&v, &token, NOW), Err(TokenError::VersionMismatch { expected: 2, got: 1 })));
}

#[test]
fn refresh_invalidates_old_token() {
    let mut v = TokenVerifier::new();
    let t1 = issue(&mut v, "user-1", DEFAULT_TOKEN_TTL_NANOS, NOW);
    let old = check(&v, &t1, NOW).unwrap();
    let t2 = issue(&mut v, &old.sub, DEFAULT_TOKEN_TTL_NANOS, NOW);
    assert!(matches!(check(&v, &t1, NOW), Err(TokenError::VersionMismatch { .. })));
    assert_eq!(check(&v, &t2, NOW).unwrap().ver, 2);
}

#[test]
fn tampered_signature_rejected() {
    let mut v = TokenVerifier::new();
    let mut token = issue(&mut v, "user-1", DEFAULT_TOKEN_TTL_NANOS, NOW);
    token.signature[0] ^= 0xFF;
    assert!(matches!(check(&v, &token, NOW), Err(TokenError::InvalidSignature)));
}

#[test]
fn unknown_user_is_revoked() {
    let mut v1 = TokenVerifier::new();
    let token = issue(&mut v1, "user-1", DEFAULT_TOKEN_TTL_NANOS, NOW);
    let mut forged = TokenVerifier::new();
    let sig = forged.sign(&claims_bytes(&token.claims));
    forged.revoke("someone-else");
    let t = SessionToken { claims: token.claims, signature: sig };
    assert!(matches!(check(&forged, &t, NOW), Err(TokenError::Revoked)));
}

#[test]
fn token_string_roundtrip() {
    let mut v = TokenVerifier::new();
    let token = issue(&mut v, "user-1", DEFAULT_TOKEN_TTL_NANOS, NOW);
    let bytes = frame(&claims_bytes(&token.claims), &token.signature);
    let s = encode_token_bytes(&bytes);
    let (c, sig) = decode_token_text(&s).unwrap();
    assert_eq!(c, claims_bytes(&token.claims));
    assert_eq!(sig, token.signature);
    assert!(!s.contains('=') && !s.contains('+') && !s.contains('/'));
}

#[test]
fn short_frame_is_malformed() {
    assert!(matches!(split_frame(&[0u8; 10]), Err(TokenError::Malformed(m)) if m == "too short"));
    let (c, s) = split_frame(&[7u8; 70]).unwrap();
    assert_eq!(c.len(), 6);
    assert_eq!(s.len(), 64);
}

#[test]
fn different_verifiers_have_different_keys() {
    let mut v1 = TokenVerifier::new();
    let v2 = TokenVerifier::new();
    let token = issue(&mut v1, "user-1", DEFAULT_TOKEN_TTL_NANOS, NOW);
    assert!(matches!(check(&v2, &token, NOW), Err(TokenError::InvalidSignature)));
    assert_ne!(v1.public_key(), v2.public_key());
}

#[test]
fn create_and_get() {
    let mut store = SessionStore::new();
    let s = store.create("user-1", Some("client-A".into()));
    assert_eq!(s.user_id, "user-1");
    assert!(s.active);
    assert_eq!(store.session_count(), 1);
    let fetched = store.get(&s.id).unwrap();
    assert_eq!(fetched.user_id, "user-1");
    assert_eq!(fetched.client, Some("client-A".to_string()));
}

#[test]
fn revoke_marks_inactive() {
    let mut store = SessionStore::new();
    let s = store.create("user-1", None);
    assert!(store.revoke(&s.id));
    assert!(!store.get(&s.id).unwrap().active);
    assert!(!store.revoke("nope"));
}

#[test]
fn revoke_all_for_user() {
    let mut store = SessionStore::new();
    store.create("user-1", None);
    store.create("user-1", None);
    store.create("user-2", None);
    assert_eq!(store.revoke_all_for_user("user-1"), 2);
    let active = store.list_active();
    assert_eq!(active.len(), 1);
    assert_eq!(active[0].user_id, "user-2");
}

#[test]
fn list_for_user() {
    let mut store = SessionStore::new();
    store.create("user-1", None);
    store.create("user-1", None);
    store.create("user-2", None);
    assert_eq!(store.list_for_user("user-1").len(), 2);
    assert_eq!(store.list_for_user("user-2").len(), 1);
    assert_eq!(store.list_for_user("nobody").len(), 0);
}

#[test]
fn touch_keeps_session_and_reports_unknown() {
    let mut store = SessionStore::new();
    let s = store.create("user-1", None);
    assert!(store.touch(&s.id));
    assert!(store.get(&s.id).unwrap().last_active >= s.last_active);
    assert!(!store.touch("missing"));
}

#[test]
fn reap_removes_old_sessions() {
    let mut store = SessionStore::new();
    let s = store.create("user-1", None);
    let reaped = store.reap_expired_at(60_000_000_000, s.last_active + 60_000_000_001);
    assert_eq!(reaped, 1);
    assert_eq!(store.session_count(), 0);
    assert_eq!(store.list_for_user("user-1").len(), 0);
}

#[test]
fn reap_keeps_recent_sessions() {
    let mut store = SessionStore::new();
    let s = store.create("user-1", None);
    assert_eq!(store.reap_expired_at(60_000_000_000, s.last_active + 60_000_000_000), 0);
    assert_eq!(store.reap_expired(60_000_000_000), 0);
    assert_eq!(store.session_count(), 1);
}
