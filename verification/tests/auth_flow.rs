use nexora::auth::service::{AuthCode, AuthService, LoginRequest};
use nexora::auth::sso::oidc::{
    id_token_payload, is_id_token_expired, is_id_token_expired_at, pkce_s256_challenge, IdTokenClaims, OidcClient,
    OidcDiscovery,
};
use nexora::auth::sso::config::{SsoProviderConfig, SsoProviderKind};
use nexora::auth::token::{decode_token_text, SessionToken, TokenClaims};
use nexora::gateway::middleware::{bearer_token, AuthMiddleware};
use nexora::platform::events::EventBus;
use nexora::platform::permissions::PermissionEngine;
use nexora::string_map::StringMap;

fn claims_bytes(c: &TokenClaims) -> Vec<u8> {
    rmp_serde::to_vec(&(c.sub.as_str(), c.iat, c.exp, c.ver)).unwrap()
}

fn parse(text: &str) -> (SessionToken, Vec<u8>) {
    let (bytes, signature) = decode_token_text(text).unwrap();
    let (sub, iat, exp, ver): (String, i64, i64, u64) = rmp_serde::from_slice(&bytes).unwrap();
    (SessionToken { claims: TokenClaims { sub, iat, exp, ver }, signature }, bytes)
}

const NOW: i64 = 1_700_000_000_000_000_000;

fn service() -> AuthService {
    let mut svc = AuthService::new(PermissionEngine::new(), EventBus::new());
    svc.users.create("alice", "hunter2", None, vec!["viewer".into()]).unwrap();
    svc
}

fn login(svc: &mut AuthService, password: &str) -> Result<nexora::auth::service::LoginResponse, nexora::auth::service::AuthFailure> {
    let req = LoginRequest { username: "alice".into(), password: password.into(), client: Some("test-client".into()) };
    svc.login_at(req, NOW, &claims_bytes)
}

#[test]
fn service_login_returns_token_and_session() {
    let mut svc = service();
    let resp = login(&mut svc, "hunter2").unwrap();
    assert!(!resp.token.is_empty());
    assert_eq!(resp.username, "alice");
    assert_eq!(resp.token_expires_at_ns, NOW + 3_600_000_000_000);
    assert_eq!(svc.sessions.session_count(), 1);
    let (token, bytes) = parse(&resp.token);
    assert_eq!(token.claims.sub, resp.user_id);
    assert!(svc.tokens.verify_at(&token, &bytes, NOW).is_ok());
    assert!(svc.users.get(&resp.user_id).unwrap().last_login.is_some());
}

#[test]
fn service_login_with_wrong_password_fails() {
    let mut svc = service();
    let err = login(&mut svc, "wrong").unwrap_err();
    assert_eq!(err.code, AuthCode::InvalidCredentials);
    assert_eq!(err.message, "invalid username or password");
    assert_eq!(svc.sessions.session_count(), 0);
}

#[test]
fn service_logout_invalidates_token() {
    let mut svc = service();
    let resp = login(&mut svc, "hunter2").unwrap();
    let (token, bytes) = parse(&resp.token);
    svc.logout(&token.claims.sub, Some(&resp.session_id));
    assert!(svc.tokens.verify_at(&token, &bytes, NOW).is_err());
    assert!(!svc.sessions.get(&resp.session_id).unwrap().active);
    assert_eq!(svc.users.events().unwrap().published_count(), 3);
}

#[test]
fn service_refresh_issues_new_token_and_invalidates_old() {
    let mut svc = service();
    let resp = login(&mut svc, "hunter2").unwrap();
    let (old, old_bytes) = parse(&resp.token);
    let refreshed = svc.refresh_at(&old, &old_bytes, NOW + 1, &claims_bytes).unwrap();
    assert_eq!(refreshed.token_expires_at_ns, NOW + 1 + 86_400_000_000_000);
    let (new, new_bytes) = parse(&refreshed.token);
    assert!(svc.tokens.verify_at(&new, &new_bytes, NOW + 2).is_ok());
    assert!(svc.tokens.verify_at(&old, &old_bytes, NOW + 2).is_err());
    let err = svc.refresh_at(&old, &old_bytes, NOW + 3, &claims_bytes).unwrap_err();
    assert_eq!(err.code, AuthCode::TokenExpired);
    assert_eq!(err.message, "token revoked");
}

#[test]
fn middleware_reads_bearer_header_or_query() {
    assert_eq!(bearer_token("Bearer  abc ", ""), Some("abc".to_string()));
    assert_eq!(bearer_token("", "a=1&token=xyz&b=2"), Some("xyz".to_string()));
    assert_eq!(bearer_token("Basic zz", "token=1&token=2"), Some("2".to_string()));
    assert_eq!(bearer_token("", "tok=1&token"), None);
    assert_eq!(bearer_token("", ""), None);
}

#[test]
fn middleware_authenticates_tokens() {
    let mut svc = service();
    let resp = login(&mut svc, "hunter2").unwrap();
    let (token, bytes) = parse(&resp.token);
    let mw = AuthMiddleware::new(svc);
    assert_eq!(bytes, claims_bytes(&token.claims));
    let ctx = mw.authenticate_at(&token, NOW, &claims_bytes).unwrap();
    assert_eq!(ctx.user_id, resp.user_id);
    assert_eq!(ctx.version, 1);
    assert_eq!(mw.authenticate_at(&token, NOW + 4_000_000_000_000, &claims_bytes).unwrap_err(), "token expired");
    let forged = SessionToken {
        claims: TokenClaims { sub: "mallory".into(), iat: token.claims.iat, exp: token.claims.exp, ver: token.claims.ver },
        signature: token.signature,
    };
    assert_eq!(mw.authenticate_at(&forged, NOW, &claims_bytes).unwrap_err(), "invalid token signature");
}

fn sample_config() -> SsoProviderConfig {
    SsoProviderConfig {
        id: "test".into(),
        display_name: "Test".into(),
        kind: SsoProviderKind::Oidc,
        client_id: "client123".into(),
        client_secret: "secret".into(),
        oidc_discovery_url: Some("https://example.com/.well-known/openid-configuration".into()),
        oidc_scopes: vec!["openid".into(), "email".into(), "profile".into()],
        saml_metadata_url: None,
        saml_sso_url: None,
        saml_idp_certificate: None,
        saml_sp_entity_id: None,
        saml_sp_acs_url: None,
        redirect_after_login: "/dashboard".into(),
        role_mapping: StringMap::new(),
        default_role: "viewer".into(),
    }
}

fn sample_discovery() -> OidcDiscovery {
    OidcDiscovery {
        issuer: "https://accounts.example.com".into(),
        authorization_endpoint: "https://accounts.example.com/auth".into(),
        token_endpoint: "https://accounts.example.com/token".into(),
        userinfo_endpoint: Some("https://accounts.example.com/userinfo".into()),
        jwks_uri: "https://accounts.example.com/jwks".into(),
        scopes_supported: vec!["openid".into(), "email".into()],
        response_types_supported: vec!["code".into()],
    }
}

#[test]
fn state_and_nonce_are_unique() {
    let client = OidcClient::with_discovery(sample_config(), sample_discovery());
    let r1 = client.authorization_request();
    let r2 = client.authorization_request();
    assert_ne!(r1.state, r2.state);
    assert_ne!(r1.nonce, r2.nonce);
    assert_eq!(r1.pkce_challenge, pkce_s256_challenge(&r1.pkce_verifier));
}

#[test]
fn decode_id_token_extracts_claims() {
    let header = nexora::auth::token::encode_token_bytes(b"{}");
    let payload_json = r#"{"sub":"user-123","iss":"https://accounts.example.com","aud":"client123","exp":9999999999,"iat":1000000000,"email":"alice@example.com","email_verified":true,"name":"Alice"}"#;
    let payload = nexora::auth::token::encode_token_bytes(payload_json.as_bytes());
    let token = format!("{header}.{payload}.signature");
    let bytes = id_token_payload(&token).unwrap();
    let v: serde_json::Value = serde_json::from_slice(&bytes).unwrap();
    let claims = IdTokenClaims {
        sub: v["sub"].as_str().unwrap().into(),
        iss: v["iss"].as_str().unwrap().into(),
        aud: v["aud"].as_str().unwrap().into(),
        exp: v["exp"].as_i64().unwrap(),
        iat: v["iat"].as_i64().unwrap(),
        nonce: None,
        email: v["email"].as_str().map(|s| s.to_string()),
        email_verified: v["email_verified"].as_bool(),
        name: v["name"].as_str().map(|s| s.to_string()),
        given_name: None,
        family_name: None,
        picture: None,
        locale: None,
    };
    assert_eq!(claims.sub, "user-123");
    assert_eq!(claims.email, Some("alice@example.com".into()));
    assert_eq!(claims.name, Some("Alice".into()));
    assert!(!is_id_token_expired(&claims));
}

#[test]
fn decode_rejects_malformed_token() {
    assert!(id_token_payload("not.a.jwt.token").is_err());
    assert!(id_token_payload("onlyonepart").is_err());
}

#[test]
fn expired_token_detected() {
    let claims = IdTokenClaims {
        sub: "x".into(),
        iss: "x".into(),
        aud: "x".into(),
        exp: 1,
        iat: 1,
        nonce: None,
        email: None,
        email_verified: None,
        name: None,
        given_name: None,
        family_name: None,
        picture: None,
        locale: None,
    };
    assert!(is_id_token_expired(&claims));
    assert!(!is_id_token_expired_at(&claims, 1));
}

#[test]
fn pkce_challenge_is_deterministic() {
    let c1 = pkce_s256_challenge("verifier-123");
    let c2 = pkce_s256_challenge("verifier-123");
    assert_eq!(c1, c2);
    let c3 = pkce_s256_challenge("different");
    assert_ne!(c1, c3);
    assert_eq!(pkce_s256_challenge("abc"), "ungWv48Bz-pBQUDeXa4iI7ADYaOWF3qctBD_YfIAFa0");
}

#[test]
fn oidc_client_requires_oidc_provider() {
    let mut cfg = sample_config();
    cfg.kind = SsoProviderKind::Saml;
    assert!(OidcClient::from_discovery(cfg, sample_discovery()).is_err());
    let mut cfg = sample_config();
    cfg.oidc_discovery_url = None;
    assert!(OidcClient::from_discovery(cfg, sample_discovery()).is_err());
    assert!(OidcClient::from_discovery(sample_config(), sample_discovery()).is_ok());
}
