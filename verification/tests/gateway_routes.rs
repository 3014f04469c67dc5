use base64::Engine;
use nexora::audit::category::AuditCategory;
use nexora::audit::filter::{AuditFilter, AuditSort};
use nexora::audit::logger::AuditLogger;
use nexora::auth::mfa::{MfaManager, MfaVerifyResult};
use nexora::auth::service::{AuthCode, AuthFailure};
use nexora::auth::sso::config::{SsoProviderConfig, SsoProviderKind};
use nexora::auth::sso::oidc::{IdTokenClaims, OidcClient, OidcDiscovery};
use nexora::auth::totp::generate_current_code;
use nexora::gateway::extended::{
    audit_filter_of, mfa_disable, mfa_enroll_begin, mfa_enroll_complete, mfa_regenerate_backup_codes, mfa_verify,
    mfa_verify_reply, AuditQueryParams, MfaEnrollCompleteBody, MfaVerifyBody,
};
use nexora::gateway::routes::{
    auth_failure_status, handler_error_status, payload_text, EventStreamQuery, LoginBody, ReplayEventsQuery,
};
use nexora::gateway::sso::{
    oidc_callback_uri, saml_acs_uri, OidcCallbackQuery, SamlAcsBody, SsoLogoutBody, SsoState,
};
use nexora::loadtest::runner::LoadTest;
use nexora::platform::events::EventPayload;
use nexora::platform::kernel::{ErrorCode, ErrorScope, HandlerError};
use nexora::string_map::StringMap;

fn oidc_provider(id: &str) -> SsoProviderConfig {
    SsoProviderConfig {
        id: id.into(),
        display_name: "Google".into(),
        kind: SsoProviderKind::Oidc,
        client_id: "client".into(),
        client_secret: "secret".into(),
        oidc_discovery_url: Some("https://accounts.example.com".into()),
        oidc_scopes: vec!["openid".into()],
        saml_metadata_url: None,
        saml_sso_url: None,
        saml_idp_certificate: None,
        saml_sp_entity_id: None,
        saml_sp_acs_url: None,
        redirect_after_login: "/dashboard".into(),
        role_mapping: StringMap::new(),
        default_role: "viewer".into(),
    }
}

fn saml_provider(id: &str) -> SsoProviderConfig {
    SsoProviderConfig {
        id: id.into(),
        display_name: "Okta".into(),
        kind: SsoProviderKind::Saml,
        client_id: "sp-entity-id".into(),
        client_secret: String::new(),
        oidc_discovery_url: None,
        oidc_scopes: vec![],
        saml_metadata_url: None,
        saml_sso_url: Some("https://idp.example.com/sso".into()),
        saml_idp_certificate: Some("-----BEGIN CERTIFICATE-----\nMIIB...\n-----END CERTIFICATE-----".into()),
        saml_sp_entity_id: Some("https://nexora.dev/sp".into()),
        saml_sp_acs_url: Some("https://nexora.dev/acs".into()),
        redirect_after_login: "/home".into(),
        role_mapping: StringMap::new(),
        default_role: "viewer".into(),
    }
}

fn claims(nonce: Option<&str>, email: Option<&str>, exp: i64) -> IdTokenClaims {
    IdTokenClaims {
        sub: "sub-1".into(),
        iss: "https://accounts.example.com".into(),
        aud: "client".into(),
        exp,
        iat: 0,
        nonce: nonce.map(|s| s.to_string()),
        email: email.map(|s| s.to_string()),
        email_verified: None,
        name: None,
        given_name: None,
        family_name: None,
        picture: None,
        locale: None,
    }
}

#[test]
fn login_body_becomes_request() {
    let body = LoginBody { username: "alice".into(), password: "pw".into(), client: Some("cli".into()) };
    let req = body.into_request();
    assert_eq!(req.username, "alice");
    assert_eq!(req.password, "pw");
    assert_eq!(req.client.as_deref(), Some("cli"));
}

#[test]
fn event_queries_default_to_empty_prefix() {
    let q = ReplayEventsQuery { from_id: 3, filter: None };
    assert_eq!(q.prefix(), "");
    let q = ReplayEventsQuery { from_id: 0, filter: Some("user.".into()) };
    assert_eq!(q.prefix(), "user.");
    let s = EventStreamQuery { filter: Some("core.".into()) };
    assert_eq!(s.prefix(), "core.");
}

#[test]
fn payload_text_of_each_kind() {
    assert_eq!(payload_text(&EventPayload::Text("hi".into())), "hi");
    assert_eq!(payload_text(&EventPayload::Bytes(vec![0xde, 0xad, 0x01])), "dead01");
    assert_eq!(payload_text(&EventPayload::Empty), "");
}

#[test]
fn failure_statuses() {
    let f = |code| AuthFailure { code, message: String::new() };
    assert_eq!(auth_failure_status(&f(AuthCode::InvalidCredentials)), 401);
    assert_eq!(auth_failure_status(&f(AuthCode::TokenExpired)), 401);
    assert_eq!(auth_failure_status(&f(AuthCode::Internal)), 500);
    let e = |scope| HandlerError { scope, code: ErrorCode::DecodeFailed, message: String::new() };
    assert_eq!(handler_error_status(&e(ErrorScope::Protocol)), 400);
    assert_eq!(handler_error_status(&e(ErrorScope::Authz)), 403);
}

#[test]
fn audit_query_becomes_filter() {
    let params = AuditQueryParams {
        actor: Some("alice".into()),
        action: Some("login".into()),
        category: Some("auth".into()),
        success: Some(false),
        limit: Some(5),
        offset: Some(2),
        oldest_first: Some(true),
    };
    let f: AuditFilter = audit_filter_of(&params);
    assert_eq!(f.actor.as_deref(), Some("alice"));
    assert_eq!(f.action.as_deref(), Some("login"));
    assert_eq!(f.category, Some(AuditCategory::Auth));
    assert_eq!(f.success_only, Some(false));
    assert_eq!(f.limit, Some(5));
    assert_eq!(f.offset, Some(2));
    assert_eq!(f.sort, AuditSort::OldestFirst);
    assert!(f.target.is_none());
}

#[test]
fn audit_query_ignores_unknown_category() {
    let params = AuditQueryParams {
        actor: None,
        action: None,
        category: Some("bogus".into()),
        success: None,
        limit: None,
        offset: None,
        oldest_first: Some(false),
    };
    let f = audit_filter_of(&params);
    assert!(f.category.is_none());
    assert!(f.actor.is_none());
    assert!(f.success_only.is_none());
    assert_eq!(f.sort, AuditSort::NewestFirst);
}

#[test]
fn mfa_verify_replies() {
    assert_eq!(mfa_verify_reply(MfaVerifyResult::Valid), (true, "صالح".to_string()));
    assert_eq!(mfa_verify_reply(MfaVerifyResult::Invalid), (false, "رمز غير صالح".to_string()));
    assert_eq!(mfa_verify_reply(MfaVerifyResult::NotEnrolled), (false, "MFA غير مُفعّل".to_string()));
    assert_eq!(mfa_verify_reply(MfaVerifyResult::AlreadyUsed), (false, "كود الاسترداد مستخدم بالفعل".to_string()));
    assert_eq!(mfa_verify_reply(MfaVerifyResult::Error("x".into())), (false, "x".to_string()));
}

#[test]
fn mfa_routes_record_in_audit_log() {
    let mut mfa = MfaManager::new();
    let mut audit = AuditLogger::new(100);

    let (ok, msg) = mfa_verify(&mut mfa, &mut audit, "u1", &MfaVerifyBody { code: "123456".into() });
    assert!(!ok);
    assert_eq!(msg, "MFA غير مُفعّل");

    let enrollment = mfa_enroll_begin(&mfa, &mut audit, "u1");
    assert_eq!(enrollment.backup_codes.len(), 10);

    let bad = MfaEnrollCompleteBody { code: "000000".into(), secret: "!!".into(), backup_codes: vec![] };
    let err = mfa_enroll_complete(&mut mfa, &mut audit, "u1", &bad).unwrap_err();
    assert!(err.starts_with("سر غير صالح: "));
    assert!(!mfa.is_enrolled("u1"));

    let code = generate_current_code(&enrollment.secret);
    let body = MfaEnrollCompleteBody {
        code,
        secret: enrollment.secret.to_base32(),
        backup_codes: enrollment.backup_codes.clone(),
    };
    mfa_enroll_complete(&mut mfa, &mut audit, "u1", &body).unwrap();
    assert!(mfa.is_enrolled("u1"));

    let code = generate_current_code(&enrollment.secret);
    let (ok, msg) = mfa_verify(&mut mfa, &mut audit, "u1", &MfaVerifyBody { code });
    assert!(ok);
    assert_eq!(msg, "صالح");

    let codes = mfa_regenerate_backup_codes(&mut mfa, &mut audit, "u1").unwrap();
    assert_eq!(codes.len(), 10);
    assert!(mfa_disable(&mut mfa, &mut audit, "u1"));
    assert!(!mfa.is_enrolled("u1"));
    assert!(mfa_regenerate_backup_codes(&mut mfa, &mut audit, "u1").is_err());
    assert!(!mfa_disable(&mut mfa, &mut audit, "u1"));

    let all = audit.query(&AuditFilter::new().with_sort(AuditSort::OldestFirst));
    let actions: Vec<(&str, bool)> = all.entries.iter().map(|e| (e.action.as_str(), e.success)).collect();
    assert_eq!(
        actions,
        vec![
            ("mfa.verify", false),
            ("mfa.enroll.begin", true),
            ("mfa.enroll.complete", true),
            ("mfa.verify", true),
            ("mfa.backup_codes.regenerate", true),
            ("mfa.disable", true),
            ("mfa.disable", false),
        ]
    );
    assert!(all.entries.iter().all(|e| e.actor == "u1" && e.target == "u1" && e.category == AuditCategory::Auth));
}

#[test]
fn sso_route_paths() {
    assert_eq!(oidc_callback_uri("google"), "/api/auth/sso/oidc/google/callback");
    assert_eq!(saml_acs_uri("okta"), "/api/auth/sso/saml/okta/acs");
}

#[test]
fn sso_provider_of_kind() {
    let mut state = SsoState::empty();
    state.add_provider(oidc_provider("google"));
    let e = state.provider_of_kind("azure", SsoProviderKind::Oidc).unwrap_err();
    assert_eq!(e.status, 404);
    assert_eq!(e.message, "مزود SSO غير موجود: azure");
    let e = state.provider_of_kind("google", SsoProviderKind::Saml).unwrap_err();
    assert_eq!(e.status, 400);
    assert_eq!(e.message, "المزود google ليس SAML");
    assert_eq!(state.provider_of_kind("google", SsoProviderKind::Oidc).unwrap().display_name, "Google");
}

#[test]
fn oidc_callback_checks_in_order() {
    let mut state = SsoState::empty();
    state.add_provider(oidc_provider("google"));

    let q = OidcCallbackQuery {
        code: Some("c".into()),
        state: "s".into(),
        error: Some("access_denied".into()),
        error_description: Some("no".into()),
    };
    let e = state.oidc_callback_check("google", &q).unwrap_err();
    assert_eq!((e.status, e.message.as_str()), (400, "خطأ IdP: access_denied — no"));

    let q = OidcCallbackQuery { code: None, state: "s".into(), error: None, error_description: None };
    let e = state.oidc_callback_check("google", &q).unwrap_err();
    assert_eq!((e.status, e.message.as_str()), (400, "رمز التفويض مفقود"));

    let q = OidcCallbackQuery { code: Some("c".into()), state: "unknown".into(), error: None, error_description: None };
    let e = state.oidc_callback_check("google", &q).unwrap_err();
    assert_eq!(e.status, 400);
    assert_eq!(e.message, "فشل التحقق من state: SSO state mismatch (CSRF protection)");

    let flow = state.begin_oidc_flow("google", "n-1".into());
    assert_eq!(flow.redirect_uri, "/api/auth/sso/oidc/google/callback");
    assert_eq!(state.sessions.flow_count(), 1);
    let q = OidcCallbackQuery { code: Some("code-1".into()), state: flow.state.clone(), error: None, error_description: None };
    let (code, consumed) = state.oidc_callback_check("google", &q).unwrap();
    assert_eq!(code, "code-1");
    assert_eq!(consumed.nonce.as_deref(), Some("n-1"));
    assert_eq!(state.sessions.flow_count(), 0);

    let e = state.oidc_callback_finish_at("google", &consumed, &claims(Some("other"), None, 100), 50).unwrap_err();
    assert_eq!((e.status, e.message.as_str()), (401, "عدم تطابق nonce"));
    let e = state.oidc_callback_finish_at("google", &consumed, &claims(Some("n-1"), None, 100), 101).unwrap_err();
    assert_eq!((e.status, e.message.as_str()), (401, "انتهت صلاحية الرمز"));
    let s = state
        .oidc_callback_finish_at("google", &consumed, &claims(Some("n-1"), Some("a@example.com"), 100), 100)
        .unwrap();
    assert_eq!(s.user_id, "a@example.com");
    assert_eq!(s.idp_subject, "sub-1");
    assert_eq!(s.provider_id, "google");
    let s = state.oidc_callback_finish_at("google", &consumed, &claims(None, None, 100), 0).unwrap();
    assert_eq!(s.user_id, "sub-1");
    assert_eq!(state.sessions.session_count(), 2);
}

#[test]
fn oidc_clients_are_cached_by_provider() {
    let mut state = SsoState::empty();
    let discovery = || OidcDiscovery {
        issuer: "https://accounts.example.com".into(),
        authorization_endpoint: "https://accounts.example.com/auth".into(),
        token_endpoint: "https://accounts.example.com/token".into(),
        userinfo_endpoint: None,
        jwks_uri: "https://accounts.example.com/jwks".into(),
        scopes_supported: vec![],
        response_types_supported: vec![],
    };
    assert!(state.cached_client("google").is_none());
    state.cache_client("google", OidcClient::with_discovery(oidc_provider("google"), discovery()));
    let mut second = oidc_provider("google");
    second.display_name = "Second".into();
    state.cache_client("google", OidcClient::with_discovery(second, discovery()));
    assert_eq!(state.oidc_clients.len(), 1);
    assert_eq!(state.cached_client("google").unwrap().config().display_name, "Second");
}

#[test]
fn saml_login_and_acs() {
    let mut state = SsoState::empty();
    state.add_provider(saml_provider("okta"));
    state.add_provider(oidc_provider("google"));

    let e = state.saml_login("google").unwrap_err();
    assert_eq!((e.status, e.message.as_str()), (400, "المزود google ليس SAML"));
    let url = state.saml_login("okta").unwrap();
    assert!(url.starts_with("https://idp.example.com/sso?SAMLRequest="));
    assert_eq!(state.sessions.flow_count(), 1);

    let xml = r#"<saml:Assertion ID="_a">
  <saml:Issuer>idp</saml:Issuer>
  <saml:NameID>bob</saml:NameID>
  <saml:Audience>https://nexora.dev/sp</saml:Audience>
</saml:Assertion>"#;
    let b64 = base64::engine::general_purpose::STANDARD.encode(xml);
    let (session, assertion) =
        state.saml_acs_at("okta", &SamlAcsBody { samlresponse: b64, relaystate: None }, 1_700_000_000).unwrap();
    assert_eq!(assertion.subject, "bob");
    assert_eq!(session.user_id, "bob");
    assert_eq!(session.provider_id, "okta");

    let e = state
        .saml_acs_at("okta", &SamlAcsBody { samlresponse: "%%%".into(), relaystate: None }, 1_700_000_000)
        .unwrap_err();
    assert_eq!(e.status, 401);
    assert!(e.message.starts_with("فشل تحليل استجابة SAML: SAML response invalid: "));
    let e = state.saml_acs_at("none", &SamlAcsBody { samlresponse: String::new(), relaystate: None }, 0).unwrap_err();
    assert_eq!(e.status, 404);

    let e = state.logout(&SsoLogoutBody { session_id: "nope".into() }).unwrap_err();
    assert_eq!((e.status, e.message.as_str()), (404, "جلسة SSO غير موجودة"));
    state.logout(&SsoLogoutBody { session_id: session.id.clone() }).unwrap();
    assert_eq!(state.sessions.session_count(), 0);
}

#[test]
fn saml_login_reports_missing_configuration() {
    let mut state = SsoState::empty();
    let mut p = saml_provider("okta");
    p.saml_sso_url = None;
    state.add_provider(p);
    let e = state.saml_login("okta").unwrap_err();
    assert_eq!(e.status, 500);
    assert_eq!(e.message, "فشل تهيئة SAML: SSO provider not configured: missing saml_sso_url");
    assert_eq!(state.sessions.flow_count(), 0);
}

#[test]
fn sso_stats_and_provider_list() {
    let mut state = SsoState::empty();
    state.add_provider(oidc_provider("google"));
    state.add_provider(saml_provider("okta"));
    state.begin_oidc_flow("google", "n".into());
    let stats = state.stats();
    assert_eq!(stats.providers, 2);
    assert_eq!(stats.pending_flows, 1);
    assert_eq!(stats.active_sessions, 0);
    assert_eq!(stats.flows_purged, 0);
    assert_eq!(stats.sessions_purged, 0);
    let list = state.provider_summaries();
    assert_eq!(list.len(), 2);
    assert_eq!((list[0].id.as_str(), list[0].kind.as_str()), ("google", "oidc"));
    assert_eq!((list[1].id.as_str(), list[1].kind.as_str()), ("okta", "saml"));
    assert_eq!(list[1].redirect_after_login, "/home");
}

#[test]
fn ramp_up_configs_follow_the_plan() {
    let configs = LoadTest::ramp_up_configs("http://test", 5, 20, 3);
    let shape: Vec<(usize, usize)> = configs.iter().map(|c| (c.concurrent, c.total)).collect();
    assert_eq!(shape, vec![(5, 50), (10, 100), (15, 150)]);
    assert!(configs.iter().all(|c| c.url == "http://test" && c.method == "GET"));
    let flat = LoadTest::ramp_up_configs("http://test", 20, 5, 2);
    let shape: Vec<(usize, usize)> = flat.iter().map(|c| (c.concurrent, c.total)).collect();
    assert_eq!(shape, vec![(20, 200), (21, 210)]);
}
