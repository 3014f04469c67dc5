//! Errors of single sign-on.

use vstd::prelude::*;
use crate::text::push_str;

verus! {

/// Error of a single sign-on operation.
#[derive(Debug)]
pub enum SsoError {
    /// The provider is not configured for this protocol.
    ProviderNotConfigured(String),
    /// No provider has this id.
    ProviderNotFound(String),
    /// The redirect URL is not acceptable.
    InvalidRedirectUrl(String),
    /// OIDC discovery failed.
    OidcDiscoveryFailed(String),
    /// The OIDC code exchange failed.
    OidcTokenExchangeFailed(String),
    /// The OIDC ID token did not verify.
    OidcTokenVerificationFailed(String),
    /// The OIDC key set could not be fetched.
    OidcJwksFetchFailed(String),
    /// The SAML response is malformed or not for us.
    SamlResponseInvalid(String),
    /// The SAML signature did not verify.
    SamlSignatureInvalid(String),
    /// The SAML assertion is past its validity.
    SamlExpired,
    /// The SAML response was seen before.
    SamlReplayed,
    /// The state parameter does not match (CSRF protection).
    StateMismatch,
    /// The SSO session has expired.
    SessionExpired,
    /// No SSO session has this id.
    SessionNotFound(String),
    /// The identity provider left out a required claim.
    MissingClaim(String),
    /// An HTTP request failed.
    Http(String),
    /// JSON could not be read or written.
    Json(String),
    /// Base64 could not be decoded.
    Base64(String),
    /// A URL could not be parsed.
    Url(String),
    /// Single sign-on is not built in.
    FeatureNotEnabled,
}

/// The text of an error.
pub open spec fn sso_error_text(e: SsoError) -> Seq<char> {
    match e {
        SsoError::ProviderNotConfigured(m) => "SSO provider not configured: "@ + m@,
        SsoError::ProviderNotFound(m) => "SSO provider not found: "@ + m@,
        SsoError::InvalidRedirectUrl(m) => "invalid redirect URL: "@ + m@,
        SsoError::OidcDiscoveryFailed(m) => "OIDC discovery failed: "@ + m@,
        SsoError::OidcTokenExchangeFailed(m) => "OIDC token exchange failed: "@ + m@,
        SsoError::OidcTokenVerificationFailed(m) => "OIDC ID token verification failed: "@ + m@,
        SsoError::OidcJwksFetchFailed(m) => "OIDC JWKS fetch failed: "@ + m@,
        SsoError::SamlResponseInvalid(m) => "SAML response invalid: "@ + m@,
        SsoError::SamlSignatureInvalid(m) => "SAML signature verification failed: "@ + m@,
        SsoError::SamlExpired => "SAML response expired"@,
        SsoError::SamlReplayed => "SAML response replayed"@,
        SsoError::StateMismatch => "SSO state mismatch (CSRF protection)"@,
        SsoError::SessionExpired => "SSO session expired"@,
        SsoError::SessionNotFound(m) => "SSO session not found: "@ + m@,
        SsoError::MissingClaim(m) => "IdP did not return required claim: "@ + m@,
        SsoError::Http(m) => "HTTP error: "@ + m@,
        SsoError::Json(m) => "JSON error: "@ + m@,
        SsoError::Base64(m) => "base64 decode error: "@ + m@,
        SsoError::Url(m) => "URL parse error: "@ + m@,
        SsoError::FeatureNotEnabled => "SSO feature not enabled (rebuild with --features sso)"@,
    }
}

fn prefixed(prefix: &str, m: &String) -> (s: String)
    ensures
        s@ == prefix@ + m@,
{
    let mut s = prefix.to_owned();
    push_str(&mut s, m.as_str());
    s
}

impl SsoError {
    /// The text of the error.
    pub fn to_string(&self) -> (s: String)
        ensures
            s@ == sso_error_text(*self),
    {
        match self {
            SsoError::ProviderNotConfigured(m) => prefixed("SSO provider not configured: ", m),
            SsoError::ProviderNotFound(m) => prefixed("SSO provider not found: ", m),
            SsoError::InvalidRedirectUrl(m) => prefixed("invalid redirect URL: ", m),
            SsoError::OidcDiscoveryFailed(m) => prefixed("OIDC discovery failed: ", m),
            SsoError::OidcTokenExchangeFailed(m) => prefixed("OIDC token exchange failed: ", m),
            SsoError::OidcTokenVerificationFailed(m) => prefixed("OIDC ID token verification failed: ", m),
            SsoError::OidcJwksFetchFailed(m) => prefixed("OIDC JWKS fetch failed: ", m),
            SsoError::SamlResponseInvalid(m) => prefixed("SAML response invalid: ", m),
            SsoError::SamlSignatureInvalid(m) => prefixed("SAML signature verification failed: ", m),
            SsoError::SamlExpired => "SAML response expired".to_owned(),
            SsoError::SamlReplayed => "SAML response replayed".to_owned(),
            SsoError::StateMismatch => "SSO state mismatch (CSRF protection)".to_owned(),
            SsoError::SessionExpired => "SSO session expired".to_owned(),
            SsoError::SessionNotFound(m) => prefixed("SSO session not found: ", m),
            SsoError::MissingClaim(m) => prefixed("IdP did not return required claim: ", m),
            SsoError::Http(m) => prefixed("HTTP error: ", m),
            SsoError::Json(m) => prefixed("JSON error: ", m),
            SsoError::Base64(m) => prefixed("base64 decode error: ", m),
            SsoError::Url(m) => prefixed("URL parse error: ", m),
            SsoError::FeatureNotEnabled => "SSO feature not enabled (rebuild with --features sso)".to_owned(),
        }
    }
}

} // verus!
