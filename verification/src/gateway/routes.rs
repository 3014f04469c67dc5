//! What the HTTP routes take and how their failures are answered.
//!
//! The request shapes are plain values; reading them from JSON, and
//! writing the replies, is the transport's business.

use vstd::prelude::*;
use crate::auth::service::{AuthCode, AuthFailure, LoginRequest};
use crate::auth::sso::codec::{hex_encode, hex_lower};
use crate::platform::events::{EventPayload, PayloadView};
use crate::platform::kernel::{ErrorScope, HandlerError};

verus! {

/// Body of `POST /api/auth/login`.
#[derive(Debug)]
pub struct LoginBody {
    /// User name.
    pub username: String,
    /// Password.
    pub password: String,
    /// Client description, if given.
    pub client: Option<String>,
}

impl LoginBody {
    /// The login request this body asks for.
    pub fn into_request(self) -> (r: LoginRequest)
        ensures
            r.username@ == self.username@,
            r.password@ == self.password@,
            r.client == self.client,
    {
        LoginRequest { username: self.username, password: self.password, client: self.client }
    }
}

/// Body of `POST /api/auth/logout`.
#[derive(Debug)]
pub struct LogoutBody {
    /// The token to revoke.
    pub token: String,
    /// The session to close, if given.
    pub session_id: Option<String>,
}

/// Body of `POST /api/auth/refresh`.
#[derive(Debug)]
pub struct RefreshBody {
    /// The token to refresh.
    pub token: String,
}

/// Body of `POST /api/core/events`.
#[derive(Debug)]
pub struct PublishEventBody {
    /// Event name.
    pub name: String,
    /// Event payload.
    pub payload: String,
}

/// Query of `GET /api/core/events`.
#[derive(Debug)]
pub struct ReplayEventsQuery {
    /// First event id to replay (0 when absent).
    pub from_id: u64,
    /// Name prefix, if given.
    pub filter: Option<String>,
}

/// The name prefix of an optional filter: empty when absent.
pub open spec fn prefix_of(filter: Option<String>) -> Seq<char> {
    match filter {
        Some(f) => f@,
        None => Seq::empty(),
    }
}

impl ReplayEventsQuery {
    /// The name prefix to replay: the filter, or the empty prefix.
    pub fn prefix(&self) -> (s: String)
        ensures
            s@ == prefix_of(self.filter),
    {
        match &self.filter {
            Some(f) => f.clone(),
            None => String::new(),
        }
    }
}

/// Query of `GET /api/core/events/stream`.
#[derive(Debug)]
pub struct EventStreamQuery {
    /// Name prefix, if given.
    pub filter: Option<String>,
}

impl EventStreamQuery {
    /// The name prefix to stream: the filter, or the empty prefix.
    pub fn prefix(&self) -> (s: String)
        ensures
            s@ == prefix_of(self.filter),
    {
        match &self.filter {
            Some(f) => f.clone(),
            None => String::new(),
        }
    }
}

/// Query of `GET /api/marketplace/packages/search`.
#[derive(Debug)]
pub struct MarketplaceSearchQuery {
    /// Search text (empty when absent).
    pub q: String,
}

/// Body of `POST /api/marketplace/packages/:id/install`.
#[derive(Debug)]
pub struct InstallBody {
    /// Version to install.
    pub version: String,
}

/// Body of `POST /api/marketplace/packages/:id/rollback`.
#[derive(Debug)]
pub struct RollbackBody {
    /// Version to roll back to.
    pub version: String,
}

/// The text an event's payload is streamed as.
pub open spec fn payload_text_spec(p: PayloadView) -> Seq<char> {
    match p {
        PayloadView::Text(s) => s,
        PayloadView::Bytes(b) => hex_lower(b),
        PayloadView::Empty => Seq::empty(),
    }
}

/// The text an event's payload is streamed as: text as it is, bytes in
/// lower-case hexadecimal, nothing for an empty payload.
pub fn payload_text(p: &EventPayload) -> (s: String)
    ensures
        s@ == payload_text_spec(p@),
{
    match p {
        EventPayload::Text(t) => t.clone(),
        EventPayload::Bytes(b) => hex_encode(b.as_slice()),
        EventPayload::Empty => String::new(),
    }
}

/// The HTTP status of a failed authentication request.
pub open spec fn auth_status(code: AuthCode) -> u16 {
    match code {
        AuthCode::InvalidCredentials => 401,
        AuthCode::TokenExpired => 401,
        AuthCode::Internal => 500,
    }
}

/// The HTTP status of a failed authentication request: 401 for bad
/// credentials or tokens, 500 for a failure inside the service.
pub fn auth_failure_status(f: &AuthFailure) -> (s: u16)
    ensures
        s == auth_status(f.code),
{
    match f.code {
        AuthCode::InvalidCredentials => 401,
        AuthCode::TokenExpired => 401,
        AuthCode::Internal => 500,
    }
}

/// The HTTP status of a failed core command.
pub open spec fn scope_status(scope: ErrorScope) -> u16 {
    match scope {
        ErrorScope::Protocol => 400,
        ErrorScope::Authz => 403,
    }
}

/// The HTTP status of a failed core command: 400 for a request that
/// could not be processed, 403 for one the principal may not make.
pub fn handler_error_status(e: &HandlerError) -> (s: u16)
    ensures
        s == scope_status(e.scope),
{
    match e.scope {
        ErrorScope::Protocol => 400,
        ErrorScope::Authz => 403,
    }
}

} // verus!
