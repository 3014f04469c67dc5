//! The authentication service: users, sessions and tokens together, and
//! what login, logout and refresh do with them.
//!
//! A token's claims travel in their MessagePack form, which the caller
//! supplies (`encode`); the service signs those bytes and returns the
//! token's text form, URL-safe Base64 of the claims bytes followed by the
//! signature.

use vstd::prelude::*;
use crate::auth::password::{argon2_accepts, phc_parses};
use crate::auth::store::{SessionStore, DEFAULT_SESSION_TTL_NANOS};
use crate::auth::token::{
    base64url_spec, bumped, ed25519_signature, encode_token_bytes, frame, SessionToken, TokenClaims, TokenError,
    TokenVerifier, DEFAULT_REFRESH_TTL_NANOS, DEFAULT_TOKEN_TTL_NANOS, ed25519_verifies,
};
use crate::auth::users::{lowercase, UserError, UserStore, UserView};
use crate::clock::clamp_i64;
use crate::platform::events::{bus_wf, emit_on, emitted, EventBus};
use crate::platform::permissions::PermissionEngine;
use crate::sys::now_unix_nanos;
use crate::text::push_str;

verus! {

/// Why an authentication request failed.
#[derive(Clone, Copy, Debug, PartialEq, Eq, Structural)]
pub enum AuthCode {
    /// Wrong user name, password or token.
    InvalidCredentials,
    /// The token expired or was revoked.
    TokenExpired,
    /// Something failed inside the service.
    Internal,
}

/// A failed authentication request.
#[derive(Debug)]
pub struct AuthFailure {
    /// Why.
    pub code: AuthCode,
    /// Message.
    pub message: String,
}

/// A login request.
#[derive(Debug)]
pub struct LoginRequest {
    /// User name.
    pub username: String,
    /// Password.
    pub password: String,
    /// Client description, if given.
    pub client: Option<String>,
}

/// What a login answers.
#[derive(Debug)]
pub struct LoginResponse {
    /// The token's text form.
    pub token: String,
    /// Its expiry (unix nanoseconds).
    pub token_expires_at_ns: i64,
    /// The session opened.
    pub session_id: String,
    /// The user's id.
    pub user_id: String,
    /// The user's name.
    pub username: String,
}

/// What a refresh answers.
#[derive(Debug)]
pub struct RefreshResponse {
    /// The new token's text form.
    pub token: String,
    /// Its expiry (unix nanoseconds).
    pub token_expires_at_ns: i64,
}

/// The token text of claims bytes and their signature.
pub open spec fn token_text(claims_bytes: Seq<u8>, signature: Seq<u8>) -> Seq<char> {
    base64url_spec(claims_bytes + signature)
}

/// Whether a user may log in with this password.
pub open spec fn credentials_accepted(u: UserView, password: Seq<char>) -> bool {
    u.active && match u.password_hash {
        Some(h) => phc_parses(h) && argon2_accepts(password, h),
        None => false,
    }
}

/// The authentication service.
pub struct AuthService {
    /// Users.
    pub users: UserStore,
    /// Sessions.
    pub sessions: SessionStore,
    /// Token issuer and verifier.
    pub tokens: TokenVerifier,
}

impl AuthService {
    /// Well-formedness of the parts.
    pub open spec fn wf(&self) -> bool {
        self.users.wf() && self.sessions.wf() && self.tokens.wf()
    }

    /// Whether no user's token version is exhausted.
    pub open spec fn versions_open(&self) -> bool {
        forall|k: Seq<char>| #[trigger] self.tokens.version_of(k) matches Some(v) ==> v < u64::MAX
    }

    /// A service with no users, sessions or tokens; users are registered as
    /// principals of `permissions`, and user events go to `events`.
    pub fn new(permissions: PermissionEngine, events: EventBus) -> (s: AuthService)
        requires
            permissions.wf(),
            events.wf(),
        ensures
            s.wf(),
            s.users.users() == Map::<Seq<char>, UserView>::empty(),
            s.users.names() == Map::<Seq<char>, (Seq<char>, Seq<char>)>::empty(),
            s.users.permission_engine() == Some(permissions),
            s.users.event_bus() == Some(events),
            s.sessions.sessions() == Map::<Seq<char>, crate::auth::store::SessionView>::empty(),
            s.sessions.default_ttl() == DEFAULT_SESSION_TTL_NANOS,
            s.tokens.versions() == Map::<Seq<char>, (Seq<char>, u64)>::empty(),
            s.versions_open(),
    {
        let users = UserStore::new().with_permission_engine(permissions).with_event_bus(events);
        let s = AuthService { users, sessions: SessionStore::new(), tokens: TokenVerifier::new() };
        s
    }

    /// Issue a token for `user_id` at `now`, valid for `ttl_nanos`; its
    /// claims, and its text form.
    pub fn issue_at<F: Fn(&TokenClaims) -> Vec<u8>>(
        &mut self,
        user_id: &str,
        ttl_nanos: u64,
        now: i64,
        encode: &F,
    ) -> (r: (TokenClaims, String))
        requires
            old(self).wf(),
            old(self).versions_open(),
            forall|c: &TokenClaims| #[trigger] encode.requires((c,)),
        ensures
            final(self).wf(),
            final(self).users == old(self).users,
            final(self).sessions == old(self).sessions,
            final(self).tokens.key() == old(self).tokens.key(),
            final(self).tokens.versions() == old(self).tokens.versions().insert(user_id@, (user_id@, r.0.ver)),
            r.0.sub@ == user_id@,
            r.0.iat == now,
            r.0.exp == clamp_i64(now + clamp_i64(ttl_nanos as int)),
            r.0.ver == bumped(old(self).tokens.version_of(user_id@)),
            exists|bytes: Vec<u8>|
                #[trigger] encode.ensures((&r.0,), bytes) && r.1@ == token_text(
                    bytes@,
                    ed25519_signature(old(self).tokens.key(), bytes@),
                ),
    {
        let claims = self.tokens.issue_claims_at(user_id, ttl_nanos, now);
        let bytes = encode(&claims);
        let sig = self.tokens.sign(bytes.as_slice());
        let wire = frame(bytes.as_slice(), &sig);
        let text = encode_token_bytes(wire.as_slice());
        proof {
            assert(encode.ensures((&claims,), bytes));
        }
        (claims, text)
    }

    /// Log a user in at time `now`: check the credentials, issue a token
    /// valid for an hour, open a session and record the login.
    pub fn login_at<F: Fn(&TokenClaims) -> Vec<u8>>(&mut self, req: LoginRequest, now: i64, encode: &F) -> (r:
        Result<LoginResponse, AuthFailure>)
        requires
            old(self).wf(),
            old(self).versions_open(),
            forall|c: &TokenClaims| #[trigger] encode.requires((c,)),
        ensures
            final(self).wf(),
            match old(self).users.user_named(lowercase(req.username@)) {
                None => r matches Err(f) && f.code == AuthCode::InvalidCredentials && f.message@
                    == "invalid username or password"@ && *final(self) == *old(self),
                Some(u) => if !u.active {
                    r matches Err(f) && f.code == AuthCode::InvalidCredentials && f.message@ == "user "@ + u.id
                        + " inactive"@ && *final(self) == *old(self)
                } else if !credentials_accepted(u, req.password@) {
                    r matches Err(f) && f.code == AuthCode::InvalidCredentials && f.message@
                        == "invalid username or password"@ && *final(self) == *old(self)
                } else {
                    &&& r matches Ok(resp)
                    &&& resp.user_id@ == u.id && resp.username@ == u.username
                    &&& resp.token_expires_at_ns == clamp_i64(now + clamp_i64(DEFAULT_TOKEN_TTL_NANOS as int))
                    &&& final(self).tokens.version_of(u.id) == Some(bumped(old(self).tokens.version_of(u.id)))
                    &&& final(self).sessions.sessions().contains_key(resp.session_id@)
                    &&& final(self).sessions.sessions()[resp.session_id@].user_id == u.id
                    &&& final(self).users.users().dom() == old(self).users.users().dom()
                    &&& old(self).users.users().contains_key(u.id) ==> final(self).users.users()[u.id].last_login is Some
                },
            },
    {
        let user = match self.users.verify(req.username.as_str(), req.password.as_str()) {
            Ok(u) => u,
            Err(e) => {
                let failure = match e {
                    UserError::Inactive(id) => {
                        let mut m = "user ".to_owned();
                        push_str(&mut m, id.as_str());
                        push_str(&mut m, " inactive");
                        AuthFailure { code: AuthCode::InvalidCredentials, message: m }
                    },
                    UserError::UsernameTaken(name) => {
                        let mut m = "user ".to_owned();
                        push_str(&mut m, name.as_str());
                        push_str(&mut m, " exists");
                        AuthFailure { code: AuthCode::InvalidCredentials, message: m }
                    },
                    UserError::Password(_) => AuthFailure {
                        code: AuthCode::Internal,
                        message: "password hashing failed".to_owned(),
                    },
                    _ => AuthFailure {
                        code: AuthCode::InvalidCredentials,
                        message: "invalid username or password".to_owned(),
                    },
                };
                return Err(failure);
            },
        };
        let ghost u = user@;
        let (claims, token) = self.issue_at(user.id.as_str(), DEFAULT_TOKEN_TTL_NANOS, now, encode);
        let session = self.sessions.create(user.id.as_str(), req.client);
        let _ = self.users.record_login(user.id.as_str());
        Ok(
            LoginResponse {
                token,
                token_expires_at_ns: claims.exp,
                session_id: session.id,
                user_id: user.id,
                username: user.username,
            },
        )
    }

    /// Log out the subject of a token: all its tokens stop verifying, the
    /// given session (if any) is revoked, and `user.logged_out` is
    /// published.
    pub fn logout(&mut self, subject: &str, session_id: Option<&str>)
        requires
            old(self).wf(),
            old(self).versions_open(),
        ensures
            final(self).wf(),
            final(self).tokens.version_of(subject@) == Some(bumped(old(self).tokens.version_of(subject@))),
            match session_id {
                Some(id) => old(self).sessions.sessions().contains_key(id@) ==> !final(self).sessions.sessions()[id@].active,
                None => final(self).sessions == old(self).sessions,
            },
    {
        self.tokens.revoke(subject);
        match session_id {
            Some(id) => {
                let _ = self.sessions.revoke(id);
            },
            None => {},
        }
        self.users.publish("user.logged_out", subject);
    }

    /// Refresh a token at time `now`: it must verify (its claims having the
    /// MessagePack form `claims_bytes`); a new token valid for a day is
    /// issued to its subject.
    pub fn refresh_at<F: Fn(&TokenClaims) -> Vec<u8>>(
        &mut self,
        old_token: &SessionToken,
        claims_bytes: &[u8],
        now: i64,
        encode: &F,
    ) -> (r: Result<RefreshResponse, AuthFailure>)
        requires
            old(self).wf(),
            old(self).versions_open(),
            forall|c: &TokenClaims| #[trigger] encode.requires((c,)),
        ensures
            final(self).wf(),
            ({
                let o = old(self);
                let t = old_token.claims;
                if !ed25519_verifies(o.tokens.key(), claims_bytes@, old_token.signature@) {
                    r matches Err(f) && f.code == AuthCode::InvalidCredentials && f.message@ == "invalid token"@
                        && *final(self) == *old(self)
                } else if t.exp < now {
                    r matches Err(f) && f.code == AuthCode::TokenExpired && f.message@ == "token expired"@
                        && *final(self) == *old(self)
                } else if o.tokens.version_of(t.sub@) != Some(t.ver) {
                    r matches Err(f) && f.code == AuthCode::TokenExpired && f.message@ == "token revoked"@
                        && *final(self) == *old(self)
                } else {
                    &&& r matches Ok(resp)
                    &&& resp.token_expires_at_ns == clamp_i64(now + clamp_i64(DEFAULT_REFRESH_TTL_NANOS as int))
                    &&& final(self).tokens.version_of(t.sub@) == Some(bumped(Some(t.ver)))
                    &&& final(self).users == old(self).users
                    &&& final(self).sessions == old(self).sessions
                }
            }),
    {
        let claims = match self.tokens.verify_at(old_token, claims_bytes, now) {
            Ok(c) => c,
            Err(e) => {
                let failure = match e {
                    TokenError::Expired => AuthFailure { code: AuthCode::TokenExpired, message: "token expired".to_owned() },
                    TokenError::Revoked => AuthFailure { code: AuthCode::TokenExpired, message: "token revoked".to_owned() },
                    TokenError::VersionMismatch { .. } => AuthFailure {
                        code: AuthCode::TokenExpired,
                        message: "token revoked".to_owned(),
                    },
                    _ => AuthFailure { code: AuthCode::InvalidCredentials, message: "invalid token".to_owned() },
                };
                return Err(failure);
            },
        };
        let (new_claims, token) = self.issue_at(claims.sub.as_str(), DEFAULT_REFRESH_TTL_NANOS, now, encode);
        Ok(RefreshResponse { token, token_expires_at_ns: new_claims.exp })
    }
}

} // verus!
