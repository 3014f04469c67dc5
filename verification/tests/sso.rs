use base64::Engine;
use nexora::auth::sso::codec::parse_iso8601;
use nexora::auth::sso::config::{default_scopes, SsoConfig, SsoProviderConfig, SsoProviderKind};
use nexora::auth::sso::error::SsoError;
use nexora::auth::sso::saml::SamlClient;
use nexora::string_map::StringMap;

fn sample_oidc() -> SsoProviderConfig {
    SsoProviderConfig {
        id: "google".into(),
        display_name: "Google Workspace".into(),
        kind: SsoProviderKind::Oidc,
        client_id: "xxx.apps.googleusercontent.com".into(),
        client_secret: "secret".into(),
        oidc_discovery_url: Some("https://accounts.google.com/.well-known/openid-configuration".into()),
        oidc_scopes: default_scopes(),
        saml_metadata_url: None,
        saml_sso_url: None,
        saml_idp_certificate: None,
        saml_sp_entity_id: None,
        saml_sp_acs_url: None,
        redirect_after_login: "/dashboard".into(),
        role_mapping: StringMap::new(),
        default_role: "viewer".into(),
    }
}

fn sample_config() -> SsoProviderConfig {
    SsoProviderConfig {
        id: "test-saml".into(),
        display_name: "Test SAML".into(),
        kind: SsoProviderKind::Saml,
        client_id: "sp-entity-id".into(),
        client_secret: String::new(),
        oidc_discovery_url: None,
        oidc_scopes: vec![],
        saml_metadata_url: None,
        saml_sso_url: Some("https://idp.example.com/sso".into()),
        saml_idp_certificate: Some("-----BEGIN CERTIFICATE-----\nMIIB...\n-----END CERTIFICATE-----".into()),
        saml_sp_entity_id: Some("https://nexora.dev/sp".into()),
        saml_sp_acs_url: Some("https://nexora.dev/auth/sso/saml/test-saml/acs".into()),
        redirect_after_login: "/dashboard".into(),
        role_mapping: StringMap::new(),
        default_role: "viewer".into(),
    }
}

#[test]
fn find_provider_by_id() {
    let mut cfg = SsoConfig::default();
    cfg.upsert(sample_oidc());
    assert!(cfg.find("google").is_some());
    assert!(cfg.find("azure").is_none());
}

#[test]
fn upsert_replaces_existing() {
    let mut cfg = SsoConfig::default();
    cfg.upsert(sample_oidc());
    let mut updated = sample_oidc();
    updated.display_name = "Google".into();
    cfg.upsert(updated);
    assert_eq!(cfg.providers.len(), 1);
    assert_eq!(cfg.find("google").unwrap().display_name, "Google");
}

#[test]
fn remove_provider() {
    let mut cfg = SsoConfig::default();
    cfg.upsert(sample_oidc());
    assert!(cfg.remove("google"));
    assert!(!cfg.remove("google"));
    assert!(cfg.providers.is_empty());
}

#[test]
fn remove_keeps_other_providers_in_order() {
    let mut cfg = SsoConfig::default();
    let mut a = sample_oidc();
    a.id = "a".into();
    let mut b = sample_oidc();
    b.id = "b".into();
    let mut c = sample_oidc();
    c.id = "c".into();
    cfg.upsert(a);
    cfg.upsert(b);
    cfg.upsert(c);
    assert!(cfg.remove("b"));
    let ids: Vec<&str> = cfg.providers.iter().map(|p| p.id.as_str()).collect();
    assert_eq!(ids, vec!["a", "c"]);
}

#[test]
fn default_session_ttl_is_8h() {
    let cfg = SsoConfig::default();
    assert_eq!(cfg.session_ttl_seconds, 8 * 3600);
}

#[test]
fn constructs_with_valid_config() {
    assert!(SamlClient::new(sample_config()).is_ok());
}

#[test]
fn rejects_missing_sso_url() {
    let mut c = sample_config();
    c.saml_sso_url = None;
    assert!(SamlClient::new(c).is_err());
}

#[test]
fn rejects_missing_certificate() {
    let mut c = sample_config();
    c.saml_idp_certificate = None;
    match SamlClient::new(c) {
        Err(SsoError::ProviderNotConfigured(m)) => assert_eq!(m, "missing saml_idp_certificate"),
        other => panic!("unexpected {:?}", other.is_ok()),
    }
}

#[test]
fn rejects_oidc_config() {
    let mut c = sample_config();
    c.kind = SsoProviderKind::Oidc;
    assert!(SamlClient::new(c).is_err());
}

#[test]
fn build_authn_request_returns_url() {
    let client = SamlClient::new(sample_config()).unwrap();
    let url = client.build_authn_request_url().unwrap();
    assert!(url.starts_with("https://idp.example.com/sso?SAMLRequest="));
    let encoded = &url["https://idp.example.com/sso?SAMLRequest=".len()..];
    let xml = String::from_utf8(base64::engine::general_purpose::STANDARD.decode(encoded).unwrap()).unwrap();
    assert!(xml.contains("Destination=\"https://idp.example.com/sso\""));
    assert!(xml.contains("<saml:Issuer xmlns:saml=\"urn:oasis:names:tc:SAML:2.0:assertion\">https://nexora.dev/sp</saml:Issuer>"));
    assert!(xml.contains("ID=\"_"));
    assert_eq!(client.config().id, "test-saml");
}

#[test]
fn parse_response_extracts_fields() {
    let client = SamlClient::new(sample_config()).unwrap();
    let xml = r#"<?xml version="1.0"?>
<samlp:Response xmlns:samlp="urn:oasis:names:tc:SAML:2.0:protocol">
  <saml:Assertion xmlns:saml="urn:oasis:names:tc:SAML:2.0:assertion"
                  ID="_abc123"
                  Version="2.0">
    <saml:Issuer>https://idp.example.com</saml:Issuer>
    <saml:Subject>
      <saml:NameID>alice@example.com</saml:NameID>
    </saml:Subject>
    <saml:Conditions NotBefore="2000-01-01T00:00:00Z" NotOnOrAfter="2099-01-01T00:00:00Z">
      <saml:AudienceRestriction>
        <saml:Audience>https://nexora.dev/sp</saml:Audience>
      </saml:AudienceRestriction>
    </saml:Conditions>
    <saml:AuthnStatement AuthnInstant="2024-01-01T00:00:00Z" SessionIndex="session-xyz"/>
  </saml:Assertion>
</samlp:Response>"#;
    let b64 = base64::engine::general_purpose::STANDARD.encode(xml);
    let assertion = client.parse_response(&b64).unwrap();
    assert_eq!(assertion.id, "_abc123");
    assert_eq!(assertion.issuer, "https://idp.example.com");
    assert_eq!(assertion.subject, "alice@example.com");
    assert_eq!(assertion.audience, "https://nexora.dev/sp");
    assert_eq!(assertion.session_index, "session-xyz");
    assert_eq!(assertion.not_before, 946_684_800);
    assert_eq!(assertion.authn_instant, 1_704_067_200);
}

#[test]
fn parse_response_collects_attributes() {
    let client = SamlClient::new(sample_config()).unwrap();
    let xml = r#"<saml:Assertion ID="_a">
  <saml:Issuer>idp</saml:Issuer>
  <saml:NameID>bob</saml:NameID>
  <saml:Audience>https://nexora.dev/sp</saml:Audience>
  <saml:Attribute Name="groups"><saml:AttributeValue> admins </saml:AttributeValue><saml:AttributeValue>dev</saml:AttributeValue></saml:Attribute>
  <saml:Attribute Name="email"><saml:AttributeValue>bob@example.com</saml:AttributeValue></saml:Attribute>
  <saml:Attribute Name="groups"><saml:AttributeValue>ops</saml:AttributeValue></saml:Attribute>
</saml:Assertion>"#;
    let b64 = base64::engine::general_purpose::STANDARD.encode(xml);
    let a = client.parse_response_at(&b64, 1_700_000_000).unwrap();
    assert_eq!(a.attributes.len(), 2);
    assert_eq!(a.attributes.get("groups").unwrap(), &vec!["admins".to_string(), "dev".to_string(), "ops".to_string()]);
    assert_eq!(a.attributes.get("email").unwrap(), &vec!["bob@example.com".to_string()]);
    assert_eq!(a.not_on_or_after, i64::MAX);
    assert_eq!(a.session_index, "");
}

#[test]
fn parse_response_rejects_wrong_audience() {
    let client = SamlClient::new(sample_config()).unwrap();
    let xml = r#"<saml:Assertion xmlns:saml="urn:oasis:names:tc:SAML:2.0:assertion" ID="_x">
  <saml:Issuer>https://idp.example.com</saml:Issuer>
  <saml:Subject><saml:NameID>alice@example.com</saml:NameID></saml:Subject>
  <saml:Conditions NotBefore="2000-01-01T00:00:00Z" NotOnOrAfter="2099-01-01T00:00:00Z">
    <saml:AudienceRestriction><saml:Audience>https://wrong.example.com</saml:Audience></saml:AudienceRestriction>
  </saml:Conditions>
</saml:Assertion>"#;
    let b64 = base64::engine::general_purpose::STANDARD.encode(xml);
    match client.parse_response(&b64) {
        Err(SsoError::SamlResponseInvalid(m)) => {
            assert_eq!(m, "audience mismatch: expected https://nexora.dev/sp, got https://wrong.example.com")
        }
        _ => panic!("expected an audience mismatch"),
    }
}

#[test]
fn parse_response_rejects_expired() {
    let client = SamlClient::new(sample_config()).unwrap();
    let xml = r#"<saml:Assertion xmlns:saml="urn:oasis:names:tc:SAML:2.0:assertion" ID="_x">
  <saml:Issuer>https://idp.example.com</saml:Issuer>
  <saml:Subject><saml:NameID>alice@example.com</saml:NameID></saml:Subject>
  <saml:Conditions NotBefore="2000-01-01T00:00:00Z" NotOnOrAfter="2001-01-01T00:00:00Z">
    <saml:AudienceRestriction><saml:Audience>https://nexora.dev/sp</saml:Audience></saml:AudienceRestriction>
  </saml:Conditions>
</saml:Assertion>"#;
    let b64 = base64::engine::general_purpose::STANDARD.encode(xml);
    assert!(matches!(client.parse_response(&b64), Err(SsoError::SamlExpired)));
}

#[test]
fn parse_response_rejects_not_yet_valid() {
    let client = SamlClient::new(sample_config()).unwrap();
    let xml = r#"<saml:Assertion xmlns:saml="urn:oasis:names:tc:SAML:2.0:assertion" ID="_x">
  <saml:Issuer>https://idp.example.com</saml:Issuer>
  <saml:Subject><saml:NameID>alice@example.com</saml:NameID></saml:Subject>
  <saml:Conditions NotBefore="2099-01-01T00:00:00Z" NotOnOrAfter="2100-01-01T00:00:00Z">
    <saml:AudienceRestriction><saml:Audience>https://nexora.dev/sp</saml:Audience></saml:AudienceRestriction>
  </saml:Conditions>
</saml:Assertion>"#;
    let b64 = base64::engine::general_purpose::STANDARD.encode(xml);
    assert!(client.parse_response(&b64).is_err());
}

#[test]
fn parse_response_rejects_bad_base64_and_missing_fields() {
    let client = SamlClient::new(sample_config()).unwrap();
    assert!(matches!(client.parse_response("%%%"), Err(SsoError::SamlResponseInvalid(_))));
    let b64 = base64::engine::general_purpose::STANDARD.encode("<saml:Assertion>no id</saml:Assertion>");
    match client.parse_response(&b64) {
        Err(SsoError::SamlResponseInvalid(m)) => assert_eq!(m, "missing Assertion ID"),
        _ => panic!("expected a missing id"),
    }
}

#[test]
fn iso8601_parsing() {
    assert_eq!(parse_iso8601("1970-01-01T00:00:00Z"), Some(0));
    assert_eq!(parse_iso8601("2000-02-29T12:30:15Z"), Some(951_827_415));
    assert_eq!(parse_iso8601("2001-02-29T00:00:00Z"), None);
    assert_eq!(parse_iso8601("2001-02-28T00:00:00"), None);
    assert_eq!(parse_iso8601("20x1-02-28T00:00:00Z"), None);
}

#[test]
fn encodings_match_known_values() {
    assert_eq!(nexora::auth::token::encode_token_bytes(b"Ma"), "TWE");
    assert_eq!(
        nexora::auth::webauthn::hash_data(b""),
        "e3b0c44298fc1c149afbf4c8996fb92427ae41e4649b934ca495991b7852b855"
    );
}

use nexora::auth::sso::session::SsoSessionManager;

#[test]
fn start_and_consume_flow() {
    let mut mgr = SsoSessionManager::default();
    let flow = mgr.start_flow("google", "https://nexora.dev/cb", Some("nonce-123".into()), None);
    assert_eq!(flow.state.len(), 64);
    assert_eq!(mgr.flow_count(), 1);
    let consumed = mgr.consume_flow(&flow.state).unwrap();
    assert_eq!(consumed.provider_id, "google");
    assert_eq!(consumed.nonce, Some("nonce-123".into()));
    assert!(mgr.consume_flow(&flow.state).is_err());
    assert_eq!(mgr.flow_count(), 0);
}

#[test]
fn consume_flow_rejects_unknown_state() {
    let mut mgr = SsoSessionManager::default();
    assert!(matches!(mgr.consume_flow("nonexistent"), Err(SsoError::StateMismatch)));
}

#[test]
fn create_and_get_session() {
    let mut mgr = SsoSessionManager::default();
    let session = mgr.create_session("user-1", "google", "sub-abc");
    assert_eq!(mgr.session_count(), 1);
    let fetched = mgr.get_session(&session.id).unwrap();
    assert_eq!(fetched.user_id, "user-1");
    assert_eq!(fetched.provider_id, "google");
    assert_eq!(fetched.idp_subject, "sub-abc");
    assert_eq!(session.expires_at - session.created_at, 8 * 3600 * 1_000_000_000);
}

#[test]
fn revoke_session() {
    let mut mgr = SsoSessionManager::default();
    let session = mgr.create_session("user-1", "google", "sub");
    assert!(mgr.revoke_session(&session.id));
    assert!(!mgr.revoke_session(&session.id));
    assert!(mgr.get_session(&session.id).is_none());
}

#[test]
fn purge_expired_removes_old_flows_and_sessions() {
    let mut mgr = SsoSessionManager::new(0, 0);
    let flow = mgr.start_flow("google", "https://x", None, None);
    let session = mgr.create_session("u", "google", "s");
    let later = std::cmp::max(flow.expires_at, session.expires_at) + 1;
    let (flows, sessions) = mgr.purge_expired_at(later);
    assert_eq!(flows, 1);
    assert_eq!(sessions, 1);
    assert_eq!(mgr.flow_count(), 0);
    assert_eq!(mgr.session_count(), 0);
}

#[test]
fn expired_flow_rejected_on_consume() {
    let mut mgr = SsoSessionManager::new(0, 0);
    let flow = mgr.start_flow("google", "https://x", None, None);
    assert!(matches!(mgr.consume_flow_at(&flow.state, flow.expires_at + 1), Err(SsoError::SessionExpired)));
    assert_eq!(mgr.flow_count(), 0);
}

#[test]
fn get_session_returns_none_for_expired() {
    let mut mgr = SsoSessionManager::new(60, 0);
    let session = mgr.create_session("u", "google", "s");
    assert!(mgr.get_session_at(&session.id, session.expires_at + 1).is_none());
    assert!(mgr.get_session_at(&session.id, session.expires_at).is_some());
}
