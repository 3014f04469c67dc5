//! The single sign-on state of the gateway (flows and sessions, provider
//! configuration and the OIDC clients built so far), and what its routes
//! decide.

use vstd::prelude::*;
use crate::auth::sso::codec::base64_decoded;
use crate::auth::sso::config::{SsoConfig, SsoProviderConfig, SsoProviderKind, first_with_id};
use crate::auth::sso::error::{sso_error_text, SsoError};
use crate::auth::sso::oidc::{expired_at, is_id_token_expired_at, IdTokenClaims, OidcClient};
use crate::auth::sso::saml::{
    assertion_outcome, authn_request_url, error_view, saml_config_problem, saml_ready, text_or_empty, SamlAssertion,
    SamlAssertionView, SamlClient, SsoErrorView,
};
use crate::auth::sso::session::{opt_text, ttl_nanos, FlowView, PendingFlow, SsoSession, SsoSessionManager};
use crate::clock::clamp_i64;
use crate::sys::{UNIX_SECONDS_MAX, UNIX_SECONDS_MIN, now_unix_seconds, unix_seconds_in_range};
use crate::text::{push_str, str_eq};

verus! {

/// The single sign-on state shared by the routes.
#[derive(Debug)]
pub struct SsoState {
    /// Flows and sessions.
    pub sessions: SsoSessionManager,
    /// Provider configuration.
    pub config: SsoConfig,
    /// OIDC clients by provider id.
    pub oidc_clients: Vec<(String, OidcClient)>,
}

impl SsoState {
    /// A state with this configuration, no flows, sessions or clients.
    pub fn new(config: SsoConfig) -> (s: SsoState)
        ensures
            s.config == config,
            s.sessions.wf(),
            s.oidc_clients@.len() == 0,
    {
        SsoState { sessions: SsoSessionManager::default(), config, oidc_clients: Vec::new() }
    }

    /// A state without providers.
    pub fn empty() -> (s: SsoState)
        ensures
            s.config.providers@.len() == 0,
            s.sessions.wf(),
            s.oidc_clients@.len() == 0,
    {
        SsoState::new(SsoConfig::default())
    }

    /// Add a provider, replacing the one with the same id.
    pub fn add_provider(&mut self, provider: SsoProviderConfig)
        ensures
            final(self).sessions == old(self).sessions,
            match first_with_id(old(self).config.providers@, provider.id@) {
                Some(i) => final(self).config.providers@ == old(self).config.providers@.update(i, provider),
                None => final(self).config.providers@ == old(self).config.providers@.push(provider),
            },
    {
        self.config.upsert(provider);
    }

    /// The provider with this id.
    pub fn find_provider(&self, id: &str) -> (r: Option<&SsoProviderConfig>)
        ensures
            match r {
                Some(p) => exists|i: int|
                    0 <= i < self.config.providers@.len() && self.config.providers@[i] == *p && p.id@ == id@
                        && forall|j: int| 0 <= j < i ==> self.config.providers@[j].id@ != id@,
                None => forall|j: int| 0 <= j < self.config.providers@.len() ==> self.config.providers@[j].id@ != id@,
            },
    {
        self.config.find(id)
    }

    /// Number of providers.
    pub fn provider_count(&self) -> (n: usize)
        ensures
            n == self.config.providers@.len(),
    {
        self.config.providers.len()
    }
}

/// A refused SSO request: the HTTP status and the message.
#[derive(Debug)]
pub struct RouteError {
    /// HTTP status.
    pub status: u16,
    /// Message.
    pub message: String,
}

/// Query of the OIDC callback.
#[derive(Debug)]
pub struct OidcCallbackQuery {
    /// The authorization code, if the provider sent one.
    pub code: Option<String>,
    /// The state (anti-forgery).
    pub state: String,
    /// The provider's error, if any.
    pub error: Option<String>,
    /// The provider's description of the error, if any.
    pub error_description: Option<String>,
}

/// Body of the SAML assertion consumer service (POST binding).
#[derive(Debug)]
pub struct SamlAcsBody {
    /// The Base64-encoded SAML response.
    pub samlresponse: String,
    /// The relay state, if any.
    pub relaystate: Option<String>,
}

/// Body of `POST /api/auth/sso/logout`.
#[derive(Debug)]
pub struct SsoLogoutBody {
    /// The SSO session to end.
    pub session_id: String,
}

/// What the SSO statistics route reports.
#[derive(Debug, Clone, Copy)]
pub struct SsoStats {
    /// Configured providers.
    pub providers: usize,
    /// Flows still pending after the purge.
    pub pending_flows: usize,
    /// Sessions left after the purge.
    pub active_sessions: usize,
    /// Expired flows purged.
    pub flows_purged: usize,
    /// Expired sessions purged.
    pub sessions_purged: usize,
}

/// A provider as the provider list shows it.
#[derive(Debug)]
pub struct ProviderSummary {
    /// Provider id.
    pub id: String,
    /// Display name.
    pub display_name: String,
    /// `oidc` or `saml`.
    pub kind: String,
    /// Where the user goes after login.
    pub redirect_after_login: String,
}

/// The first provider with this id.
pub open spec fn provider_found(ps: Seq<SsoProviderConfig>, id: Seq<char>) -> Option<SsoProviderConfig> {
    match first_with_id(ps, id) {
        Some(i) => Some(ps[i]),
        None => None,
    }
}

/// The name of a protocol in the provider list.
pub open spec fn kind_name(k: SsoProviderKind) -> Seq<char> {
    match k {
        SsoProviderKind::Oidc => "oidc"@,
        SsoProviderKind::Saml => "saml"@,
    }
}

/// The message for an unknown provider.
pub open spec fn not_found_text(id: Seq<char>) -> Seq<char> {
    "مزود SSO غير موجود: "@ + id
}

/// The message for a provider of the other protocol.
pub open spec fn wrong_kind_text(id: Seq<char>, kind: SsoProviderKind) -> Seq<char> {
    "المزود "@ + id + match kind {
        SsoProviderKind::Oidc => " ليس OIDC"@,
        SsoProviderKind::Saml => " ليس SAML"@,
    }
}

/// The message for an error reported by the identity provider.
pub open spec fn idp_error_text(err: Seq<char>, desc: Option<String>) -> Seq<char> {
    "خطأ IdP: "@ + err + " — "@ + match desc {
        Some(d) => d@,
        None => Seq::empty(),
    }
}

/// The callback path of a provider's OIDC flow.
pub open spec fn oidc_callback_path(id: Seq<char>) -> Seq<char> {
    "/api/auth/sso/oidc/"@ + id + "/callback"@
}

/// The assertion consumer service path of a provider's SAML flow.
pub open spec fn saml_acs_path(id: Seq<char>) -> Seq<char> {
    "/api/auth/sso/saml/"@ + id + "/acs"@
}

/// The user an ID token stands for: its e-mail address, else its subject.
pub open spec fn claims_user(c: IdTokenClaims) -> Seq<char> {
    match c.email {
        Some(e) => e@,
        None => c.sub@,
    }
}

/// Whether the nonce of an ID token contradicts the one of its flow: both
/// present and different.
pub open spec fn nonce_mismatch(expected: Option<Seq<char>>, actual: Option<String>) -> bool {
    match (expected, actual) {
        (Some(e), Some(a)) => a@ != e,
        _ => false,
    }
}

/// The position of the first client kept for this provider.
pub open spec fn client_index(v: Seq<(String, OidcClient)>, id: Seq<char>) -> Option<int> {
    if exists|i: int| 0 <= i < v.len() && v[i].0@ == id {
        Some(choose|i: int| 0 <= i < v.len() && v[i].0@ == id && forall|j: int| 0 <= j < i ==> v[j].0@ != id)
    } else {
        None
    }
}

/// The outcome of the first half of the OIDC callback at time `now`, with
/// the flows going from `before` to `after`: an error from the provider,
/// then a missing code, are refused (400) with no flow consumed; otherwise
/// the flow of the state is consumed and the answer is the code and the flow
/// exactly when the flow existed, had not expired at `now` and the provider
/// exists; else 400 for an unknown or expired state, 404 for an unknown
/// provider.
pub open spec fn callback_outcome(
    before: Map<Seq<char>, FlowView>,
    after: Map<Seq<char>, FlowView>,
    providers: Seq<SsoProviderConfig>,
    provider_id: Seq<char>,
    query: OidcCallbackQuery,
    now: i64,
    r: Result<(String, PendingFlow), RouteError>,
) -> bool {
    match query.error {
        Some(err) => r matches Err(e) && e.status == 400 && e.message@ == idp_error_text(
            err@,
            query.error_description,
        ) && after == before,
        None => match query.code {
            None => r matches Err(e) && e.status == 400 && e.message@ == "رمز التفويض مفقود"@ && after == before,
            Some(code) => {
                let state = query.state@;
                &&& after == before.remove(state)
                &&& if !before.contains_key(state) {
                    r matches Err(e) && e.status == 400 && e.message@ == "فشل التحقق من state: "@
                        + sso_error_text(SsoError::StateMismatch)
                } else if now > before[state].expires_at {
                    r matches Err(e) && e.status == 400 && e.message@ == "فشل التحقق من state: "@
                        + sso_error_text(SsoError::SessionExpired)
                } else if provider_found(providers, provider_id) is None {
                    r matches Err(e) && e.status == 404 && e.message@ == not_found_text(provider_id)
                } else {
                    r matches Ok((c, f)) && c@ == code@ && f@ == before[state]
                }
            },
        },
    }
}

/// The text of an error of reading a SAML response.
pub open spec fn parse_error_text(v: SsoErrorView) -> Seq<char> {
    match v {
        SsoErrorView::Invalid(m) => "SAML response invalid: "@ + m,
        SsoErrorView::Expired => "SAML response expired"@,
        SsoErrorView::Other => Seq::empty(),
    }
}

/// Whether a Base64 SAML response is accepted at `now` for the entity id
/// `sp`: it decodes, is UTF-8, and its assertion is valid.
pub open spec fn saml_accepted(b64: Seq<char>, sp: Seq<char>, now: i64) -> bool {
    &&& base64_decoded(b64) matches Some(bytes)
    &&& vstd::utf8::valid_utf8(bytes)
    &&& exists|a: SamlAssertionView| #[trigger] assertion_outcome(vstd::utf8::decode_utf8(bytes), sp, now, Ok(a))
}

/// Whether `message` is the refusal of a Base64 SAML response at `now` for
/// the entity id `sp`: a response that does not decode or is not UTF-8 is
/// invalid (with the decoder's reason); otherwise the reason is the one
/// the assertion is refused for.
pub open spec fn saml_refusal(b64: Seq<char>, sp: Seq<char>, now: i64, message: Seq<char>) -> bool {
    let prefix = "فشل تحليل استجابة SAML: "@;
    match base64_decoded(b64) {
        None => exists|m: Seq<char>| message == prefix + #[trigger] parse_error_text(SsoErrorView::Invalid(m)),
        Some(bytes) => if !vstd::utf8::valid_utf8(bytes) {
            exists|m: Seq<char>| message == prefix + #[trigger] parse_error_text(SsoErrorView::Invalid(m))
        } else {
            exists|v: SsoErrorView|
                #[trigger] assertion_outcome(vstd::utf8::decode_utf8(bytes), sp, now, Err(v)) && message == prefix
                    + parse_error_text(v)
        },
    }
}

/// The answer of the SAML assertion consumer service for a ready provider
/// `p` at time `now`: a session for the assertion's subject exactly when
/// the response is accepted, and 401 with the reason otherwise.
pub open spec fn acs_result(
    p: SsoProviderConfig,
    provider_id: Seq<char>,
    b64: Seq<char>,
    now: i64,
    r: Result<(SsoSession, SamlAssertion), RouteError>,
) -> bool {
    let sp = text_or_empty(p.saml_sp_entity_id);
    &&& (r is Ok) == saml_accepted(b64, sp, now)
    &&& match r {
        Ok((s, a)) => {
            &&& base64_decoded(b64) matches Some(bytes)
            &&& assertion_outcome(vstd::utf8::decode_utf8(bytes), sp, now, Ok(a@))
            &&& s@.user_id == a.subject@
            &&& s@.idp_subject == a.subject@
            &&& s@.provider_id == provider_id
        },
        Err(e) => e.status == 401 && saml_refusal(b64, sp, now, e.message@),
    }
}

proof fn lemma_outcome_functional(
    xml: Seq<char>,
    sp: Seq<char>,
    now: i64,
    r1: Result<SamlAssertionView, SsoErrorView>,
    r2: Result<SamlAssertionView, SsoErrorView>,
)
    requires
        assertion_outcome(xml, sp, now, r1),
        assertion_outcome(xml, sp, now, r2),
    ensures
        r1 == r2,
{
}

proof fn lemma_refusal_text(e: SsoError)
    ensures
        error_view(e) !is Other ==> sso_error_text(e) == parse_error_text(error_view(e)),
{
}

proof fn lemma_first_client(v: Seq<(String, OidcClient)>, id: Seq<char>, k: int)
    requires
        0 <= k < v.len(),
        v[k].0@ == id,
        forall|j: int| 0 <= j < k ==> v[j].0@ != id,
    ensures
        client_index(v, id) == Some(k),
{
    let i = choose|i: int| 0 <= i < v.len() && v[i].0@ == id && forall|j: int| 0 <= j < i ==> v[j].0@ != id;
    assert(0 <= i < v.len() && v[i].0@ == id && forall|j: int| 0 <= j < i ==> v[j].0@ != id);
    if i < k {
        assert(v[i].0@ != id);
    } else if k < i {
        assert(v[k].0@ != id);
    }
}

proof fn lemma_first_index(ps: Seq<SsoProviderConfig>, id: Seq<char>, k: int)
    requires
        0 <= k < ps.len(),
        ps[k].id@ == id,
        forall|j: int| 0 <= j < k ==> ps[j].id@ != id,
    ensures
        first_with_id(ps, id) == Some(k),
{
    let i = choose|i: int| 0 <= i < ps.len() && ps[i].id@ == id && forall|j: int| 0 <= j < i ==> ps[j].id@ != id;
    assert(0 <= i < ps.len() && ps[i].id@ == id && forall|j: int| 0 <= j < i ==> ps[j].id@ != id);
    if i < k {
        assert(ps[i].id@ != id);
    } else if k < i {
        assert(ps[k].id@ != id);
    }
}

fn error(status: u16, message: String) -> (e: RouteError)
    ensures
        e.status == status,
        e.message == message,
{
    RouteError { status, message }
}

fn concat(a: &str, b: &str) -> (s: String)
    ensures
        s@ == a@ + b@,
{
    let mut s = a.to_owned();
    push_str(&mut s, b);
    s
}

fn concat3(a: &str, b: &str, c: &str) -> (s: String)
    ensures
        s@ == a@ + b@ + c@,
{
    let mut s = a.to_owned();
    push_str(&mut s, b);
    push_str(&mut s, c);
    s
}

/// The callback path of a provider's OIDC flow.
pub fn oidc_callback_uri(provider_id: &str) -> (s: String)
    ensures
        s@ == oidc_callback_path(provider_id@),
{
    concat3("/api/auth/sso/oidc/", provider_id, "/callback")
}

/// The assertion consumer service path of a provider's SAML flow.
pub fn saml_acs_uri(provider_id: &str) -> (s: String)
    ensures
        s@ == saml_acs_path(provider_id@),
{
    concat3("/api/auth/sso/saml/", provider_id, "/acs")
}


/// What the second half of the OIDC callback answers at time `now`: 401
/// for a nonce that contradicts the flow's, 401 for a token expired at
/// `now`, a session otherwise.
pub open spec fn finish_answer(
    flow_nonce: Option<Seq<char>>,
    claims: IdTokenClaims,
    now: i64,
    r: Result<SsoSession, RouteError>,
) -> bool {
    if nonce_mismatch(flow_nonce, claims.nonce) {
        r matches Err(e) && e.status == 401 && e.message@ == "عدم تطابق nonce"@
    } else if expired_at(claims.exp, now) {
        r matches Err(e) && e.status == 401 && e.message@ == "انتهت صلاحية الرمز"@
    } else {
        r is Ok
    }
}

impl SsoState {
    /// Well-formedness of the flows and sessions.
    pub open spec fn wf(&self) -> bool {
        self.sessions.wf()
    }

    /// The provider with this id, if it speaks `kind`: 404 when no
    /// provider has the id, 400 when it speaks the other protocol.
    pub fn provider_of_kind(&self, id: &str, kind: SsoProviderKind) -> (r: Result<&SsoProviderConfig, RouteError>)
        ensures
            match provider_found(self.config.providers@, id@) {
                None => r matches Err(e) && e.status == 404 && e.message@ == not_found_text(id@),
                Some(p) => if p.kind == kind {
                    r matches Ok(q) && *q == p
                } else {
                    r matches Err(e) && e.status == 400 && e.message@ == wrong_kind_text(id@, kind)
                },
            },
    {
        match self.provider_index(id) {
            Some(i) => {
                let p = &self.config.providers[i];
                if p.kind == kind {
                    Ok(p)
                } else {
                    let tail = match kind {
                        SsoProviderKind::Oidc => " ليس OIDC",
                        SsoProviderKind::Saml => " ليس SAML",
                    };
                    Err(error(400, concat3("المزود ", id, tail)))
                }
            },
            None => Err(error(404, concat("مزود SSO غير موجود: ", id))),
        }
    }

    fn provider_index(&self, id: &str) -> (r: Option<usize>)
        ensures
            match r {
                Some(i) => i < self.config.providers@.len() && provider_found(self.config.providers@, id@) == Some(
                    self.config.providers@[i as int],
                ),
                None => provider_found(self.config.providers@, id@) is None,
            },
    {
        let mut i: usize = 0;
        while i < self.config.providers.len()
            invariant
                i <= self.config.providers@.len(),
                forall|j: int| 0 <= j < i ==> self.config.providers@[j].id@ != id@,
            decreases self.config.providers@.len() - i,
        {
            if str_eq(self.config.providers[i].id.as_str(), id) {
                proof {
                    lemma_first_index(self.config.providers@, id@, i as int);
                }
                return Some(i);
            }
            i = i + 1;
        }
        proof {
            assert(!(exists|k: int| 0 <= k < self.config.providers@.len() && self.config.providers@[k].id@ == id@));
        }
        None
    }

    /// The OIDC client built for this provider, if any.
    pub fn cached_client(&self, provider_id: &str) -> (r: Option<&OidcClient>)
        ensures
            match r {
                Some(c) => exists|i: int|
                    0 <= i < self.oidc_clients@.len() && self.oidc_clients@[i].0@ == provider_id@
                        && self.oidc_clients@[i].1 == *c,
                None => forall|i: int| 0 <= i < self.oidc_clients@.len() ==> self.oidc_clients@[i].0@ != provider_id@,
            },
    {
        let mut i: usize = 0;
        while i < self.oidc_clients.len()
            invariant
                i <= self.oidc_clients@.len(),
                forall|j: int| 0 <= j < i ==> self.oidc_clients@[j].0@ != provider_id@,
            decreases self.oidc_clients@.len() - i,
        {
            if str_eq(self.oidc_clients[i].0.as_str(), provider_id) {
                return Some(&self.oidc_clients[i].1);
            }
            i = i + 1;
        }
        None
    }

    /// Keep a client built for a provider, replacing one kept before.
    pub fn cache_client(&mut self, provider_id: &str, client: OidcClient)
        ensures
            final(self).sessions == old(self).sessions,
            final(self).config == old(self).config,
            match client_index(old(self).oidc_clients@, provider_id@) {
                Some(i) => {
                    &&& final(self).oidc_clients@.len() == old(self).oidc_clients@.len()
                    &&& final(self).oidc_clients@[i].0@ == provider_id@
                    &&& final(self).oidc_clients@[i].1 == client
                    &&& forall|j: int|
                        0 <= j < old(self).oidc_clients@.len() && j != i ==> final(self).oidc_clients@[j] == old(
                            self,
                        ).oidc_clients@[j]
                },
                None => {
                    &&& final(self).oidc_clients@.len() == old(self).oidc_clients@.len() + 1
                    &&& final(self).oidc_clients@.last().0@ == provider_id@
                    &&& final(self).oidc_clients@.last().1 == client
                    &&& forall|j: int|
                        0 <= j < old(self).oidc_clients@.len() ==> final(self).oidc_clients@[j] == old(
                            self,
                        ).oidc_clients@[j]
                },
            },
    {
        let mut i: usize = 0;
        while i < self.oidc_clients.len()
            invariant
                i <= self.oidc_clients@.len(),
                *self == *old(self),
                forall|j: int| 0 <= j < i ==> self.oidc_clients@[j].0@ != provider_id@,
            decreases self.oidc_clients@.len() - i,
        {
            if str_eq(self.oidc_clients[i].0.as_str(), provider_id) {
                proof {
                    lemma_first_client(self.oidc_clients@, provider_id@, i as int);
                }
                self.oidc_clients.set(i, (provider_id.to_owned(), client));
                return;
            }
            i = i + 1;
        }
        self.oidc_clients.push((provider_id.to_owned(), client));
    }

    /// Start the flow of an OIDC login with this nonce; its redirect URI
    /// is the provider's callback path.
    pub fn begin_oidc_flow(&mut self, provider_id: &str, nonce: String) -> (f: PendingFlow)
        requires
            old(self).wf(),
        ensures
            final(self).wf(),
            final(self).config == old(self).config,
            f@.provider_id == provider_id@,
            f@.redirect_uri == oidc_callback_path(provider_id@),
            f@.nonce == Some(nonce@),
            f@.pkce_verifier is None,
            final(self).sessions.flows() == old(self).sessions.flows().insert(f@.state, f@),
            final(self).sessions.sessions() == old(self).sessions.sessions(),
    {
        let redirect = oidc_callback_uri(provider_id);
        self.sessions.start_flow(provider_id, redirect.as_str(), Some(nonce), None)
    }

    /// The first half of the OIDC callback at time `now` (unix
    /// nanoseconds), before the code is exchanged: an error from the
    /// provider is answered 400, a missing code 400; then the flow of the
    /// state is consumed, refused (400) when it is unknown or has expired at
    /// `now`, and the provider must exist (404). On success, the code and the
    /// flow.
    pub fn oidc_callback_check_at(
        &mut self,
        provider_id: &str,
        query: &OidcCallbackQuery,
        now: i64,
    ) -> (r: Result<(String, PendingFlow), RouteError>)
        requires
            old(self).wf(),
        ensures
            final(self).wf(),
            final(self).config == old(self).config,
            final(self).sessions.sessions() == old(self).sessions.sessions(),
            callback_outcome(
                old(self).sessions.flows(),
                final(self).sessions.flows(),
                old(self).config.providers@,
                provider_id@,
                *query,
                now,
                r,
            ),
    {
        match &query.error {
            Some(err) => {
                let mut m = concat3("خطأ IdP: ", err.as_str(), " — ");
                match &query.error_description {
                    Some(d) => push_str(&mut m, d.as_str()),
                    None => {},
                }
                assert(m@ =~= idp_error_text(err@, query.error_description));
                return Err(error(400, m));
            },
            None => {},
        }
        let code = match &query.code {
            Some(c) => c.clone(),
            None => {
                return Err(error(400, "رمز التفويض مفقود".to_owned()));
            },
        };
        let flow = match self.sessions.consume_flow_at(query.state.as_str(), now) {
            Ok(f) => f,
            Err(e) => {
                let t = e.to_string();
                return Err(error(400, concat("فشل التحقق من state: ", t.as_str())));
            },
        };
        match self.provider_of_kind_any(provider_id) {
            Ok(()) => Ok((code, flow)),
            Err(e) => Err(e),
        }
    }


    /// The first half of the OIDC callback at the current time; see
    /// [`SsoState::oidc_callback_check_at`].
    pub fn oidc_callback_check(&mut self, provider_id: &str, query: &OidcCallbackQuery) -> (r: Result<
        (String, PendingFlow),
        RouteError,
    >)
        requires
            old(self).wf(),
        ensures
            final(self).wf(),
            final(self).config == old(self).config,
            final(self).sessions.sessions() == old(self).sessions.sessions(),
            match query.error {
                Some(err) => r matches Err(e) && e.status == 400 && e.message@ == idp_error_text(
                    err@,
                    query.error_description,
                ) && final(self).sessions.flows() == old(self).sessions.flows(),
                None => match query.code {
                    None => r matches Err(e) && e.status == 400 && e.message@ == "رمز التفويض مفقود"@
                        && final(self).sessions.flows() == old(self).sessions.flows(),
                    Some(code) => {
                        &&& final(self).sessions.flows() == old(self).sessions.flows().remove(query.state@)
                        &&& match r {
                            Ok((c, f)) => {
                                &&& c@ == code@
                                &&& old(self).sessions.flows().contains_key(query.state@)
                                &&& f@ == old(self).sessions.flows()[query.state@]
                                &&& provider_found(old(self).config.providers@, provider_id@) is Some
                            },
                            Err(e) => if !old(self).sessions.flows().contains_key(query.state@) {
                                e.status == 400 && e.message@ == "فشل التحقق من state: "@ + sso_error_text(
                                    SsoError::StateMismatch,
                                )
                            } else if provider_found(old(self).config.providers@, provider_id@) is None {
                                (e.status == 400 && e.message@ == "فشل التحقق من state: "@ + sso_error_text(
                                    SsoError::SessionExpired,
                                )) || (e.status == 404 && e.message@ == not_found_text(provider_id@))
                            } else {
                                e.status == 400 && e.message@ == "فشل التحقق من state: "@ + sso_error_text(
                                    SsoError::SessionExpired,
                                )
                            },
                        }
                    },
                },
            },
            exists|now: i64|
                #[trigger] callback_outcome(
                    old(self).sessions.flows(),
                    final(self).sessions.flows(),
                    old(self).config.providers@,
                    provider_id@,
                    *query,
                    now,
                    r,
                ),
    {
        self.oidc_callback_check_at(provider_id, query, crate::sys::now_unix_nanos())
    }

    fn provider_of_kind_any(&self, id: &str) -> (r: Result<(), RouteError>)
        ensures
            match provider_found(self.config.providers@, id@) {
                None => r matches Err(e) && e.status == 404 && e.message@ == not_found_text(id@),
                Some(_) => r is Ok,
            },
    {
        match self.provider_of_kind(id, SsoProviderKind::Oidc) {
            Ok(_) => Ok(()),
            Err(e) => if e.status == 404 {
                Err(e)
            } else {
                Ok(())
            },
        }
    }

    /// The second half of the OIDC callback, once the code was exchanged
    /// for these claims, at time `now` (unix seconds): a nonce that
    /// contradicts the flow's is answered 401, an expired token 401;
    /// otherwise a session is opened for the user the claims stand for.
    pub fn oidc_callback_finish_at(
        &mut self,
        provider_id: &str,
        flow: &PendingFlow,
        claims: &IdTokenClaims,
        now: i64,
    ) -> (r: Result<SsoSession, RouteError>)
        requires
            old(self).wf(),
        ensures
            final(self).wf(),
            final(self).config == old(self).config,
            final(self).sessions.flows() == old(self).sessions.flows(),
            finish_answer(flow@.nonce, *claims, now, r),
            if nonce_mismatch(flow@.nonce, claims.nonce) {
                r matches Err(e) && e.status == 401 && e.message@ == "عدم تطابق nonce"@
                    && final(self).sessions.sessions() == old(self).sessions.sessions()
            } else if expired_at(claims.exp, now) {
                r matches Err(e) && e.status == 401 && e.message@ == "انتهت صلاحية الرمز"@
                    && final(self).sessions.sessions() == old(self).sessions.sessions()
            } else {
                r matches Ok(s) && s@.user_id == claims_user(*claims) && s@.provider_id == provider_id@
                    && s@.idp_subject == claims.sub@ && final(self).sessions.sessions()
                    == old(self).sessions.sessions().insert(s@.id, s@)
            },
    {
        match (&flow.nonce, &claims.nonce) {
            (Some(expected), Some(actual)) => {
                if !str_eq(actual.as_str(), expected.as_str()) {
                    return Err(error(401, "عدم تطابق nonce".to_owned()));
                }
            },
            _ => {},
        }
        if is_id_token_expired_at(claims, now) {
            return Err(error(401, "انتهت صلاحية الرمز".to_owned()));
        }
        let user = match &claims.email {
            Some(e) => e.clone(),
            None => claims.sub.clone(),
        };
        let session = self.sessions.create_session(user.as_str(), provider_id, claims.sub.as_str());
        Ok(session)
    }

    /// The second half of the OIDC callback at the current time; see
    /// [`SsoState::oidc_callback_finish_at`].
    pub fn oidc_callback_finish(&mut self, provider_id: &str, flow: &PendingFlow, claims: &IdTokenClaims) -> (r:
        Result<SsoSession, RouteError>)
        requires
            old(self).wf(),
        ensures
            final(self).wf(),
            final(self).config == old(self).config,
            final(self).sessions.flows() == old(self).sessions.flows(),
            nonce_mismatch(flow@.nonce, claims.nonce) ==> (r matches Err(e) && e.status == 401 && e.message@
                == "عدم تطابق nonce"@),
            match r {
                Ok(s) => !nonce_mismatch(flow@.nonce, claims.nonce) && s@.user_id == claims_user(*claims)
                    && s@.provider_id == provider_id@ && s@.idp_subject == claims.sub@
                    && final(self).sessions.sessions() == old(self).sessions.sessions().insert(s@.id, s@),
                Err(e) => e.status == 401 && final(self).sessions.sessions() == old(self).sessions.sessions(),
            },
            exists|now: i64| unix_seconds_in_range(now) && #[trigger] finish_answer(flow@.nonce, *claims, now, r),
    {
        let now = now_unix_seconds();
        let r = self.oidc_callback_finish_at(provider_id, flow, claims, now);
        r
    }

    /// Start a SAML login: the provider must exist (404) and speak SAML
    /// (400), its configuration must have what SAML needs (500, with the
    /// reason). The flow is started with the provider's assertion consumer
    /// path and no nonce; the answer is the URL to redirect to.
    pub fn saml_login(&mut self, provider_id: &str) -> (r: Result<String, RouteError>)
        requires
            old(self).wf(),
        ensures
            final(self).wf(),
            final(self).config == old(self).config,
            final(self).sessions.sessions() == old(self).sessions.sessions(),
            match provider_found(old(self).config.providers@, provider_id@) {
                None => r matches Err(e) && e.status == 404 && e.message@ == not_found_text(provider_id@)
                    && final(self).sessions.flows() == old(self).sessions.flows(),
                Some(p) => if p.kind != SsoProviderKind::Saml {
                    r matches Err(e) && e.status == 400 && e.message@ == wrong_kind_text(
                        provider_id@,
                        SsoProviderKind::Saml,
                    ) && final(self).sessions.flows() == old(self).sessions.flows()
                } else if !saml_ready(p) {
                    r matches Err(e) && e.status == 500 && e.message@ == "فشل تهيئة SAML: "@
                        + "SSO provider not configured: "@ + saml_config_problem(p)
                        && final(self).sessions.flows() == old(self).sessions.flows()
                } else {
                    r matches Ok(url) && (exists|rnd: Seq<u8>, now: (i32, u8, u8, u8, u8, u8)|
                        rnd.len() == 16 && url@ == #[trigger] authn_request_url(p, rnd, now)) && exists|
                        f: crate::auth::sso::session::FlowView,
                    |
                        f.provider_id == provider_id@ && f.redirect_uri == saml_acs_path(provider_id@) && f.nonce is None
                            && f.pkce_verifier is None && #[trigger] final(self).sessions.flows()
                            == old(self).sessions.flows().insert(f.state, f)
                },
            },
    {
        let ghost found: SsoProviderConfig;
        let p = match self.provider_of_kind(provider_id, SsoProviderKind::Saml) {
            Ok(p) => {
                proof {
                    found = *p;
                }
                p.duplicate()
            },
            Err(e) => {
                return Err(e);
            },
        };
        let client = match SamlClient::new(p) {
            Ok(c) => c,
            Err(e) => {
                let t = e.to_string();
                return Err(error(500, concat("فشل تهيئة SAML: ", t.as_str())));
            },
        };
        let url = match client.build_authn_request_url() {
            Ok(u) => u,
            Err(e) => {
                let t = e.to_string();
                return Err(error(500, concat("فشل بناء طلب المصادقة: ", t.as_str())));
            },
        };
        proof {
            let (rnd, now) = choose|rnd: Seq<u8>, now: (i32, u8, u8, u8, u8, u8)|
                rnd.len() == 16 && url@ == #[trigger] authn_request_url(client.cfg(), rnd, now);
            assert(authn_request_url(client.cfg(), rnd, now) == authn_request_url(found, rnd, now));
        }
        let acs = saml_acs_uri(provider_id);
        let _flow = self.sessions.start_flow(provider_id, acs.as_str(), None, None);
        Ok(url)
    }

    /// The SAML assertion consumer service at time `now` (unix seconds):
    /// the provider must exist (404) and its configuration must have what
    /// SAML needs (500); the response is read as
    /// [`SamlClient::parse_response_at`] says (401 when refused), and a
    /// session is opened for the assertion's subject.
    pub fn saml_acs_at(&mut self, provider_id: &str, body: &SamlAcsBody, now: i64) -> (r: Result<
        (SsoSession, SamlAssertion),
        RouteError,
    >)
        requires
            old(self).wf(),
        ensures
            final(self).wf(),
            final(self).config == old(self).config,
            final(self).sessions.flows() == old(self).sessions.flows(),
            match provider_found(old(self).config.providers@, provider_id@) {
                Some(p) => saml_ready(p) ==> acs_result(p, provider_id@, body.samlresponse@, now, r),
                None => true,
            },
            match provider_found(old(self).config.providers@, provider_id@) {
                None => r matches Err(e) && e.status == 404 && e.message@ == not_found_text(provider_id@)
                    && final(self).sessions.sessions() == old(self).sessions.sessions(),
                Some(p) => if !saml_ready(p) {
                    r matches Err(e) && e.status == 500 && e.message@ == "فشل تهيئة SAML: "@
                        + "SSO provider not configured: "@ + saml_config_problem(p) && final(self).sessions.sessions()
                        == old(self).sessions.sessions()
                } else {
                    &&& (r is Ok) == saml_accepted(body.samlresponse@, text_or_empty(p.saml_sp_entity_id), now)
                    &&& match r {
                        Ok((s, a)) => {
                            &&& base64_decoded(body.samlresponse@) matches Some(bytes)
                            &&& vstd::utf8::valid_utf8(bytes)
                            &&& assertion_outcome(
                                vstd::utf8::decode_utf8(bytes),
                                text_or_empty(p.saml_sp_entity_id),
                                now,
                                Ok(a@),
                            )
                            &&& s@.user_id == a.subject@
                            &&& s@.idp_subject == a.subject@
                            &&& s@.provider_id == provider_id@
                            &&& final(self).sessions.sessions() == old(self).sessions.sessions().insert(s@.id, s@)
                        },
                        Err(e) => e.status == 401 && saml_refusal(
                            body.samlresponse@,
                            text_or_empty(p.saml_sp_entity_id),
                            now,
                            e.message@,
                        ) && final(self).sessions.sessions() == old(self).sessions.sessions(),
                    }
                },
            },
    {
        let p = match self.provider_index(provider_id) {
            Some(i) => self.config.providers[i].duplicate(),
            None => {
                return Err(error(404, concat("مزود SSO غير موجود: ", provider_id)));
            },
        };
        let client = match SamlClient::new(p) {
            Ok(c) => c,
            Err(e) => {
                let t = e.to_string();
                return Err(error(500, concat("فشل تهيئة SAML: ", t.as_str())));
            },
        };
        let assertion = match client.parse_response_at(body.samlresponse.as_str(), now) {
            Ok(a) => a,
            Err(e) => {
                let t = e.to_string();
                proof {
                    lemma_refusal_text(e);
                    match base64_decoded(body.samlresponse@) {
                        Some(bytes) => {
                            if vstd::utf8::valid_utf8(bytes) {
                                let xml = vstd::utf8::decode_utf8(bytes);
                                let sp = text_or_empty(client.cfg().saml_sp_entity_id);
                                assert(assertion_outcome(xml, sp, now, Err(error_view(e))));
                                assert forall|a: SamlAssertionView| !#[trigger] assertion_outcome(
                                    xml,
                                    sp,
                                    now,
                                    Ok(a),
                                ) by {
                                    if assertion_outcome(xml, sp, now, Ok(a)) {
                                        lemma_outcome_functional(xml, sp, now, Ok(a), Err(error_view(e)));
                                    }
                                }
                            }
                        },
                        None => {},
                    }
                }
                return Err(error(401, concat("فشل تحليل استجابة SAML: ", t.as_str())));
            },
        };
        let session = self.sessions.create_session(
            assertion.subject.as_str(),
            provider_id,
            assertion.subject.as_str(),
        );
        Ok((session, assertion))
    }

    /// The SAML assertion consumer service at the current time; see
    /// [`SsoState::saml_acs_at`].
    pub fn saml_acs(&mut self, provider_id: &str, body: &SamlAcsBody) -> (r: Result<
        (SsoSession, SamlAssertion),
        RouteError,
    >)
        requires
            old(self).wf(),
        ensures
            final(self).wf(),
            final(self).config == old(self).config,
            final(self).sessions.flows() == old(self).sessions.flows(),
            match provider_found(old(self).config.providers@, provider_id@) {
                Some(p) => if saml_ready(p) {
                    exists|now: i64|
                        unix_seconds_in_range(now) && #[trigger] acs_result(p, provider_id@, body.samlresponse@, now, r)
                } else {
                    r matches Err(e) && e.status == 500
                },
                None => true,
            },
            provider_found(old(self).config.providers@, provider_id@) is None ==> (r matches Err(e) && e.status
                == 404 && e.message@ == not_found_text(provider_id@)),
            match r {
                Ok((s, a)) => s@.user_id == a.subject@ && s@.idp_subject == a.subject@ && s@.provider_id
                    == provider_id@ && final(self).sessions.sessions() == old(self).sessions.sessions().insert(
                    s@.id,
                    s@,
                ),
                Err(_) => final(self).sessions.sessions() == old(self).sessions.sessions(),
            },
    {
        let now = now_unix_seconds();
        self.saml_acs_at(provider_id, body, now)
    }

    /// End an SSO session: 404 when no session has the id.
    pub fn logout(&mut self, body: &SsoLogoutBody) -> (r: Result<(), RouteError>)
        requires
            old(self).wf(),
        ensures
            final(self).wf(),
            final(self).config == old(self).config,
            final(self).sessions.sessions() == old(self).sessions.sessions().remove(body.session_id@),
            final(self).sessions.flows() == old(self).sessions.flows(),
            match r {
                Ok(()) => old(self).sessions.sessions().contains_key(body.session_id@),
                Err(e) => !old(self).sessions.sessions().contains_key(body.session_id@) && e.status == 404
                    && e.message@ == "جلسة SSO غير موجودة"@,
            },
    {
        if self.sessions.revoke_session(body.session_id.as_str()) {
            Ok(())
        } else {
            Err(error(404, "جلسة SSO غير موجودة".to_owned()))
        }
    }

    /// Purge what has expired, then count: providers, flows and sessions
    /// left, and how many of each were purged.
    pub fn stats(&mut self) -> (s: SsoStats)
        requires
            old(self).wf(),
        ensures
            final(self).wf(),
            final(self).config == old(self).config,
            s.providers == old(self).config.providers@.len(),
            s.pending_flows == final(self).sessions.flows().len(),
            s.active_sessions == final(self).sessions.sessions().len(),
            exists|now: i64|
                (s.flows_purged, s.sessions_purged) == #[trigger] crate::auth::sso::session::purge_counts(
                    old(self).sessions.flow_table().seq(),
                    old(self).sessions.session_table().seq(),
                    now,
                ),
    {
        let (flows_purged, sessions_purged) = self.sessions.purge_expired();
        SsoStats {
            providers: self.provider_count(),
            pending_flows: self.sessions.flow_count(),
            active_sessions: self.sessions.session_count(),
            flows_purged,
            sessions_purged,
        }
    }

    /// The providers as the provider list shows them, in order.
    pub fn provider_summaries(&self) -> (v: Vec<ProviderSummary>)
        ensures
            v@.len() == self.config.providers@.len(),
            forall|i: int|
                0 <= i < v@.len() ==> {
                    let p = #[trigger] self.config.providers@[i];
                    &&& v@[i].id@ == p.id@
                    &&& v@[i].display_name@ == p.display_name@
                    &&& v@[i].kind@ == kind_name(p.kind)
                    &&& v@[i].redirect_after_login@ == p.redirect_after_login@
                },
    {
        let mut v: Vec<ProviderSummary> = Vec::new();
        let mut i: usize = 0;
        while i < self.config.providers.len()
            invariant
                i <= self.config.providers@.len(),
                v@.len() == i,
                forall|k: int|
                    0 <= k < i ==> {
                        let p = #[trigger] self.config.providers@[k];
                        &&& v@[k].id@ == p.id@
                        &&& v@[k].display_name@ == p.display_name@
                        &&& v@[k].kind@ == kind_name(p.kind)
                        &&& v@[k].redirect_after_login@ == p.redirect_after_login@
                    },
            decreases self.config.providers@.len() - i,
        {
            let p = &self.config.providers[i];
            let kind = match p.kind {
                SsoProviderKind::Oidc => "oidc".to_owned(),
                SsoProviderKind::Saml => "saml".to_owned(),
            };
            v.push(
                ProviderSummary {
                    id: p.id.clone(),
                    display_name: p.display_name.clone(),
                    kind,
                    redirect_after_login: p.redirect_after_login.clone(),
                },
            );
            i = i + 1;
        }
        v
    }
}

/// The OIDC callback's second half against the clock. With the flow's
/// nonce, a token whose expiry is at or after the latest time the clock can
/// report is accepted; a token refused as expired had an expiry before that
/// time; a token that is accepted carries the flow's nonce and had not
/// expired before the earliest time the clock can report.
pub proof fn lemma_oidc_finish_clock(
    flow_nonce: Option<Seq<char>>,
    claims: IdTokenClaims,
    r: Result<SsoSession, RouteError>,
)
    requires
        exists|now: i64| unix_seconds_in_range(now) && #[trigger] finish_answer(flow_nonce, claims, now, r),
    ensures
        !nonce_mismatch(flow_nonce, claims.nonce) && claims.exp >= UNIX_SECONDS_MAX ==> r is Ok,
        (r matches Err(e) && e.message@ == "انتهت صلاحية الرمز"@) ==> claims.exp < UNIX_SECONDS_MAX,
        r is Ok ==> !nonce_mismatch(flow_nonce, claims.nonce) && claims.exp >= UNIX_SECONDS_MIN,
{
    let now = choose|now: i64| unix_seconds_in_range(now) && #[trigger] finish_answer(flow_nonce, claims, now, r);
    reveal_strlit("انتهت صلاحية الرمز");
    reveal_strlit("عدم تطابق nonce");
    assert("انتهت صلاحية الرمز"@[0] != "عدم تطابق nonce"@[0]);
}

/// The SAML assertion consumer service against the clock. A response whose
/// assertion is well formed for the provider's entity id, with a validity
/// window that spans every time the clock can report, is accepted with a
/// session for its subject; and any accepted assertion's window overlaps
/// the times the clock can report.
pub proof fn lemma_saml_acs_clock(
    p: SsoProviderConfig,
    provider_id: Seq<char>,
    b64: Seq<char>,
    r: Result<(SsoSession, SamlAssertion), RouteError>,
    t: i64,
    a: SamlAssertionView,
)
    requires
        exists|now: i64| unix_seconds_in_range(now) && #[trigger] acs_result(p, provider_id, b64, now, r),
    ensures
        ({
            &&& base64_decoded(b64) matches Some(bytes)
            &&& vstd::utf8::valid_utf8(bytes)
            &&& assertion_outcome(vstd::utf8::decode_utf8(bytes), text_or_empty(p.saml_sp_entity_id), t, Ok(a))
            &&& a.not_before <= UNIX_SECONDS_MIN
            &&& a.not_on_or_after > UNIX_SECONDS_MAX
        }) ==> (r matches Ok((s, got)) && s@.user_id == a.subject && got@ == a),
        r matches Ok((_, got)) ==> got.not_before <= UNIX_SECONDS_MAX && got.not_on_or_after > UNIX_SECONDS_MIN,
{
    let now = choose|now: i64| unix_seconds_in_range(now) && #[trigger] acs_result(p, provider_id, b64, now, r);
    let sp = text_or_empty(p.saml_sp_entity_id);
    if base64_decoded(b64) is Some {
        let bytes = base64_decoded(b64)->0;
        let xml = vstd::utf8::decode_utf8(bytes);
        if vstd::utf8::valid_utf8(bytes) && assertion_outcome(xml, sp, t, Ok(a)) && a.not_before
            <= UNIX_SECONDS_MIN && a.not_on_or_after > UNIX_SECONDS_MAX {
            assert(assertion_outcome(xml, sp, now, Ok(a)));
            assert(saml_accepted(b64, sp, now));
            match r {
                Ok((s, got)) => {
                    assert(assertion_outcome(xml, sp, now, Ok(got@)));
                },
                Err(_) => {},
            }
        }
    }
}

} // verus!
