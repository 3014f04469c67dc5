//! The OpenID Connect client: discovery document, ID token claims, the
//! values of an authorization request (state, nonce, PKCE challenge) and
//! the unverified reading of an ID token.

use vstd::prelude::*;
use crate::auth::sso::config::{SsoProviderConfig, SsoProviderKind};
use crate::auth::sso::error::SsoError;
use crate::auth::token::{decode_base64url, base64url_decoded, base64url_encode, base64url_spec};
use crate::auth::webauthn::{sha256, sha256_digest};
use crate::scan::{chars_of, split_chars, split_on};
use crate::sys::{now_unix_seconds, random_bytes, unix_seconds_in_range};
use crate::text::push_char;

verus! {

/// The OIDC discovery document (the fields used).
#[derive(Debug, Clone)]
pub struct OidcDiscovery {
    /// Issuer.
    pub issuer: String,
    /// Authorization endpoint.
    pub authorization_endpoint: String,
    /// Token endpoint.
    pub token_endpoint: String,
    /// User info endpoint, if any.
    pub userinfo_endpoint: Option<String>,
    /// Key set URL.
    pub jwks_uri: String,
    /// Supported scopes.
    pub scopes_supported: Vec<String>,
    /// Supported response types.
    pub response_types_supported: Vec<String>,
}

/// The claims of an ID token (those of OIDC Core that are used).
#[derive(Debug, Clone)]
pub struct IdTokenClaims {
    /// Subject at the identity provider.
    pub sub: String,
    /// Issuer.
    pub iss: String,
    /// Audience (our client id).
    pub aud: String,
    /// Expiry (unix seconds).
    pub exp: i64,
    /// Issue time (unix seconds).
    pub iat: i64,
    /// Nonce sent in the request.
    pub nonce: Option<String>,
    /// E-mail address.
    pub email: Option<String>,
    /// Whether the address is verified.
    pub email_verified: Option<bool>,
    /// Full name.
    pub name: Option<String>,
    /// Given name.
    pub given_name: Option<String>,
    /// Family name.
    pub family_name: Option<String>,
    /// Picture URL.
    pub picture: Option<String>,
    /// Locale.
    pub locale: Option<String>,
}

/// The PKCE S256 challenge of a verifier: URL-safe Base64 of the SHA-256
/// digest of its UTF-8 bytes.
pub open spec fn pkce_challenge(verifier: Seq<u8>) -> Seq<char> {
    base64url_spec(sha256(verifier))
}

/// The PKCE S256 challenge of a verifier.
pub fn pkce_s256_challenge(verifier: &str) -> (c: String)
    ensures
        c@ == pkce_challenge(vstd::utf8::encode_utf8(verifier@)),
{
    let digest = sha256_digest(verifier.as_bytes());
    base64url_encode(digest.as_slice())
}

/// A fresh random state or nonce: 32 random bytes in URL-safe Base64.
pub fn random_state() -> (s: String)
    ensures
        exists|rnd: Seq<u8>| rnd.len() == 32 && s@ == #[trigger] base64url_spec(rnd),
{
    let rnd = random_bytes(32);
    base64url_encode(rnd.as_slice())
}

/// The payload of an ID token: the Base64 of its middle part, decoded.
/// A token must have exactly three dot-separated parts.
pub fn id_token_payload(id_token: &str) -> (r: Result<Vec<u8>, SsoError>)
    ensures
        ({
            let parts = split_on(id_token@, '.');
            if parts.len() != 3 {
                r matches Err(SsoError::OidcTokenVerificationFailed(m)) && m@ == "id_token must have 3 parts"@
            } else {
                match base64url_decoded(parts[1]) {
                    Some(b) => r matches Ok(p) && p@ == b,
                    None => r matches Err(SsoError::OidcTokenVerificationFailed(_)),
                }
            }
        }),
{
    let chars = chars_of(id_token);
    let parts = split_chars(&chars, '.');
    if parts.len() != 3 {
        return Err(SsoError::OidcTokenVerificationFailed("id_token must have 3 parts".to_owned()));
    }
    let mut middle = String::new();
    let mut i: usize = 0;
    while i < parts[1].len()
        invariant
            parts@.len() == 3,
            i <= parts@[1]@.len(),
            middle@ == parts@[1]@.take(i as int),
        decreases parts@[1]@.len() - i,
    {
        push_char(&mut middle, parts[1][i]);
        assert(middle@ =~= parts@[1]@.take(i + 1));
        i = i + 1;
    }
    assert(parts@[1]@.take(parts@[1]@.len() as int) =~= parts@[1]@);
    match decode_base64url(middle.as_str()) {
        Ok(b) => Ok(b),
        Err(m) => Err(SsoError::OidcTokenVerificationFailed(m)),
    }
}

/// Whether a token expiring at `exp` has expired at `now`.
pub open spec fn expired_at(exp: i64, now: i64) -> bool {
    now > exp
}

/// Whether an ID token has expired at `now` (unix seconds).
pub fn is_id_token_expired_at(claims: &IdTokenClaims, now: i64) -> (b: bool)
    ensures
        b == expired_at(claims.exp, now),
{
    now > claims.exp
}

/// Whether an ID token has expired now.
pub fn is_id_token_expired(claims: &IdTokenClaims) -> (b: bool)
    ensures
        exists|now: i64| unix_seconds_in_range(now) && b == #[trigger] expired_at(claims.exp, now),
{
    is_id_token_expired_at(claims, now_unix_seconds())
}

/// The values of one authorization request.
#[derive(Debug)]
pub struct AuthorizationRequest {
    /// Anti-forgery state.
    pub state: String,
    /// Replay-protection nonce.
    pub nonce: String,
    /// PKCE verifier (kept by the caller).
    pub pkce_verifier: String,
    /// PKCE challenge sent to the provider.
    pub pkce_challenge: String,
}

/// An OIDC client: a provider configuration and its discovery document.
#[derive(Debug)]
pub struct OidcClient {
    config: SsoProviderConfig,
    discovery: OidcDiscovery,
}

impl OidcClient {
    /// A client with an already fetched discovery document.
    pub fn with_discovery(config: SsoProviderConfig, discovery: OidcDiscovery) -> (c: OidcClient)
        ensures
            c.config_view() == config,
            c.discovery_view() == discovery,
    {
        OidcClient { config, discovery }
    }

    /// The configuration.
    pub closed spec fn config_view(&self) -> SsoProviderConfig {
        self.config
    }

    /// The discovery document.
    pub closed spec fn discovery_view(&self) -> OidcDiscovery {
        self.discovery
    }

    /// A client for an OIDC provider whose discovery document was fetched;
    /// refused for a provider of another kind or without a discovery URL.
    pub fn from_discovery(config: SsoProviderConfig, discovery: OidcDiscovery) -> (r: Result<OidcClient, SsoError>)
        ensures
            match r {
                Ok(c) => config.kind == SsoProviderKind::Oidc && config.oidc_discovery_url is Some
                    && c.config_view() == config && c.discovery_view() == discovery,
                Err(SsoError::ProviderNotConfigured(m)) => if config.kind != SsoProviderKind::Oidc {
                    m@ == "not an OIDC provider"@
                } else {
                    config.oidc_discovery_url is None && m@ == "missing discovery_url"@
                },
                Err(_) => false,
            },
    {
        if config.kind != SsoProviderKind::Oidc {
            return Err(SsoError::ProviderNotConfigured("not an OIDC provider".to_owned()));
        }
        if config.oidc_discovery_url.is_none() {
            return Err(SsoError::ProviderNotConfigured("missing discovery_url".to_owned()));
        }
        Ok(OidcClient { config, discovery })
    }

    /// The values of a new authorization request: fresh state, nonce and
    /// PKCE verifier, and the verifier's challenge.
    pub fn authorization_request(&self) -> (r: AuthorizationRequest)
        ensures
            r.pkce_challenge@ == pkce_challenge(vstd::utf8::encode_utf8(r.pkce_verifier@)),
    {
        let state = random_state();
        let nonce = random_state();
        let pkce_verifier = random_state();
        let pkce_challenge = pkce_s256_challenge(pkce_verifier.as_str());
        AuthorizationRequest { state, nonce, pkce_verifier, pkce_challenge }
    }

    /// The discovery document.
    pub fn discovery(&self) -> (d: &OidcDiscovery)
        ensures
            *d == self.discovery_view(),
    {
        &self.discovery
    }

    /// The provider configuration.
    pub fn config(&self) -> (c: &SsoProviderConfig)
        ensures
            *c == self.config_view(),
    {
        &self.config
    }
}

} // verus!
