use nexora::auth::sso::config::{SsoProviderConfig, SsoProviderKind};
use nexora::gateway::sso::SsoState;
use nexora::string_map::StringMap;

fn provider(id: &str) -> SsoProviderConfig {
    SsoProviderConfig {
        id: id.into(),
        display_name: "Test".into(),
        kind: SsoProviderKind::Oidc,
        client_id: "x".into(),
        client_secret: "y".into(),
        oidc_discovery_url: Some("https://example.com".into()),
        oidc_scopes: vec!["openid".into()],
        saml_metadata_url: None,
        saml_sso_url: None,
        saml_idp_certificate: None,
        saml_sp_entity_id: None,
        saml_sp_acs_url: None,
        redirect_after_login: "/dashboard".into(),
        role_mapping: StringMap::new(),
        default_role: "viewer".into(),
    }
}

#[test]
fn sso_state_empty_has_no_providers() {
    let state = SsoState::empty();
    assert_eq!(state.provider_count(), 0);
}

#[test]
fn sso_state_add_provider() {
    let mut state = SsoState::empty();
    state.add_provider(provider("test"));
    assert_eq!(state.provider_count(), 1);
}

#[test]
fn sso_state_replaces_and_finds_provider() {
    let mut state = SsoState::empty();
    state.add_provider(provider("a"));
    state.add_provider(provider("b"));
    let mut again = provider("a");
    again.display_name = "Again".into();
    state.add_provider(again);
    assert_eq!(state.provider_count(), 2);
    assert_eq!(state.find_provider("a").unwrap().display_name, "Again");
    assert!(state.find_provider("zz").is_none());
}
