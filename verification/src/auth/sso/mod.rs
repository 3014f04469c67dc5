//! Single sign-on: provider configuration, errors, the encodings SAML
//! needs, the SAML client and the flow and session store.

pub mod codec;
pub mod config;
pub mod error;
pub mod oidc;
pub mod saml;
pub mod session;
