//! Authentication: one-time passwords, multi-factor state, passwords,
//! single sign-on configuration and SAML.

pub mod mfa;
pub mod password;
pub mod service;
pub mod sso;
pub mod store;
pub mod token;
pub mod totp;
pub mod users;
pub mod webauthn;
