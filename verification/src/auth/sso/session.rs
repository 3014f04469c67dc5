//! SSO flows in flight (state, nonce, PKCE verifier) and completed SSO
//! sessions bound to Nexora users.
//!
//! A flow is one-shot: consuming it removes it, and an expired flow is
//! refused. A session is visible until it expires.

use vstd::prelude::*;
use crate::auth::sso::codec::{hex_encode, hex_lower};
use crate::auth::sso::error::SsoError;
use crate::clock::{add_nanos, clamp_i64};
use crate::sys::{new_uuid, now_unix_nanos, random_bytes};
use crate::table::{Record, Table};

verus! {

/// An SSO flow between the request to the provider and its callback.
#[derive(Debug)]
pub struct PendingFlow {
    /// Random state sent to the provider (64 hexadecimal digits).
    pub state: String,
    /// Provider id (e.g. `google`).
    pub provider_id: String,
    /// Redirect URI registered with the provider.
    pub redirect_uri: String,
    /// Nonce (OIDC only).
    pub nonce: Option<String>,
    /// PKCE verifier (OIDC only).
    pub pkce_verifier: Option<String>,
    /// Start time (unix nanoseconds).
    pub started_at: i64,
    /// Expiry (unix nanoseconds).
    pub expires_at: i64,
}

/// An optional string as an optional value.
pub open spec fn opt_text(o: Option<String>) -> Option<Seq<char>> {
    match o {
        Some(s) => Some(s@),
        None => None,
    }
}

fn copy_opt(o: &Option<String>) -> (r: Option<String>)
    ensures
        opt_text(r) == opt_text(*o),
{
    match o {
        Some(s) => Some(s.clone()),
        None => None,
    }
}

/// A flow as values.
pub struct FlowView {
    pub state: Seq<char>,
    pub provider_id: Seq<char>,
    pub redirect_uri: Seq<char>,
    pub nonce: Option<Seq<char>>,
    pub pkce_verifier: Option<Seq<char>>,
    pub started_at: i64,
    pub expires_at: i64,
}

impl View for PendingFlow {
    type V = FlowView;

    open spec fn view(&self) -> FlowView {
        FlowView {
            state: self.state@,
            provider_id: self.provider_id@,
            redirect_uri: self.redirect_uri@,
            nonce: opt_text(self.nonce),
            pkce_verifier: opt_text(self.pkce_verifier),
            started_at: self.started_at,
            expires_at: self.expires_at,
        }
    }
}

impl Record for PendingFlow {
    type Model = FlowView;

    open spec fn model(&self) -> FlowView {
        self@
    }

    open spec fn model_key(m: FlowView) -> Seq<char> {
        m.state
    }

    fn key(&self) -> (k: &str) {
        self.state.as_str()
    }

    fn copy(&self) -> (r: PendingFlow) {
        PendingFlow {
            state: self.state.clone(),
            provider_id: self.provider_id.clone(),
            redirect_uri: self.redirect_uri.clone(),
            nonce: copy_opt(&self.nonce),
            pkce_verifier: copy_opt(&self.pkce_verifier),
            started_at: self.started_at,
            expires_at: self.expires_at,
        }
    }
}

/// A completed SSO session.
#[derive(Debug)]
pub struct SsoSession {
    /// Session id (the cookie value).
    pub id: String,
    /// The Nexora user.
    pub user_id: String,
    /// The provider that authenticated the user.
    pub provider_id: String,
    /// The provider's subject (OIDC `sub` or SAML `NameID`).
    pub idp_subject: String,
    /// Creation time (unix nanoseconds).
    pub created_at: i64,
    /// Expiry (unix nanoseconds).
    pub expires_at: i64,
}

/// A session as values.
pub struct SsoSessionView {
    pub id: Seq<char>,
    pub user_id: Seq<char>,
    pub provider_id: Seq<char>,
    pub idp_subject: Seq<char>,
    pub created_at: i64,
    pub expires_at: i64,
}

impl View for SsoSession {
    type V = SsoSessionView;

    open spec fn view(&self) -> SsoSessionView {
        SsoSessionView {
            id: self.id@,
            user_id: self.user_id@,
            provider_id: self.provider_id@,
            idp_subject: self.idp_subject@,
            created_at: self.created_at,
            expires_at: self.expires_at,
        }
    }
}

impl Record for SsoSession {
    type Model = SsoSessionView;

    open spec fn model(&self) -> SsoSessionView {
        self@
    }

    open spec fn model_key(m: SsoSessionView) -> Seq<char> {
        m.id
    }

    fn key(&self) -> (k: &str) {
        self.id.as_str()
    }

    fn copy(&self) -> (r: SsoSession) {
        SsoSession {
            id: self.id.clone(),
            user_id: self.user_id.clone(),
            provider_id: self.provider_id.clone(),
            idp_subject: self.idp_subject.clone(),
            created_at: self.created_at,
            expires_at: self.expires_at,
        }
    }
}

/// Seconds in nanoseconds, clamped to the range of `i64`.
pub open spec fn ttl_nanos(seconds: i64) -> i64 {
    clamp_i64(seconds * 1_000_000_000)
}

fn seconds_nanos(seconds: i64) -> (n: i64)
    ensures
        n == ttl_nanos(seconds),
{
    match seconds.checked_mul(1_000_000_000) {
        Some(v) => v,
        None => {
            if seconds > 0 {
                i64::MAX
            } else {
                i64::MIN
            }
        },
    }
}

/// Default lifetime of a flow: five minutes.
pub const DEFAULT_FLOW_TTL_SECONDS: i64 = 300;

/// Default lifetime of an SSO session: eight hours.
pub const DEFAULT_SSO_SESSION_TTL_SECONDS: i64 = 28800;

/// The SSO flow and session manager.
#[derive(Debug)]
pub struct SsoSessionManager {
    flows: Table<PendingFlow>,
    sessions: Table<SsoSession>,
    flow_ttl_seconds: i64,
    session_ttl_seconds: i64,
}

impl Default for SsoSessionManager {
    fn default() -> (m: SsoSessionManager)
        ensures
            m.wf(),
            m.flows() == Map::<Seq<char>, FlowView>::empty(),
            m.sessions() == Map::<Seq<char>, SsoSessionView>::empty(),
            m.flow_ttl() == DEFAULT_FLOW_TTL_SECONDS,
            m.session_ttl() == DEFAULT_SSO_SESSION_TTL_SECONDS,
    {
        SsoSessionManager::new(DEFAULT_FLOW_TTL_SECONDS, DEFAULT_SSO_SESSION_TTL_SECONDS)
    }
}

impl SsoSessionManager {
    /// The flows by state.
    pub open spec fn flows(&self) -> Map<Seq<char>, FlowView> {
        self.flow_table().map()
    }

    /// The sessions by id.
    pub open spec fn sessions(&self) -> Map<Seq<char>, SsoSessionView> {
        self.session_table().map()
    }

    /// The flow table.
    pub closed spec fn flow_table(&self) -> Table<PendingFlow> {
        self.flows
    }

    /// The session table.
    pub closed spec fn session_table(&self) -> Table<SsoSession> {
        self.sessions
    }

    /// Lifetime of a flow in seconds.
    pub closed spec fn flow_ttl(&self) -> i64 {
        self.flow_ttl_seconds
    }

    /// Lifetime of a session in seconds.
    pub closed spec fn session_ttl(&self) -> i64 {
        self.session_ttl_seconds
    }

    /// Well-formedness: both tables have distinct keys.
    pub closed spec fn wf(&self) -> bool {
        self.flows.wf() && self.sessions.wf()
    }

    /// An empty manager with these lifetimes (seconds).
    pub fn new(flow_ttl_seconds: i64, session_ttl_seconds: i64) -> (m: SsoSessionManager)
        ensures
            m.wf(),
            m.flows() == Map::<Seq<char>, FlowView>::empty(),
            m.sessions() == Map::<Seq<char>, SsoSessionView>::empty(),
            m.flow_ttl() == flow_ttl_seconds,
            m.session_ttl() == session_ttl_seconds,
    {
        SsoSessionManager { flows: Table::new(), sessions: Table::new(), flow_ttl_seconds, session_ttl_seconds }
    }

    /// Start a flow now with a fresh random state (32 random bytes in
    /// hexadecimal); it expires a flow lifetime later.
    pub fn start_flow(&mut self, provider_id: &str, redirect_uri: &str, nonce: Option<String>, pkce_verifier: Option<
        String,
    >) -> (f: PendingFlow)
        requires
            old(self).wf(),
        ensures
            final(self).wf(),
            f@.state.len() == 64,
            exists|rnd: Seq<u8>| rnd.len() == 32 && f@.state == #[trigger] hex_lower(rnd),
            f@.provider_id == provider_id@,
            f@.redirect_uri == redirect_uri@,
            f@.nonce == opt_text(nonce),
            f@.pkce_verifier == opt_text(pkce_verifier),
            f@.expires_at == clamp_i64(f@.started_at + ttl_nanos(old(self).flow_ttl())),
            final(self).flows() == old(self).flows().insert(f@.state, f@),
            final(self).sessions() == old(self).sessions(),
            final(self).flow_ttl() == old(self).flow_ttl(),
            final(self).session_ttl() == old(self).session_ttl(),
    {
        let rnd = random_bytes(32);
        let state = hex_encode(rnd.as_slice());
        proof {
            crate::auth::sso::codec::lemma_hex_lower_len(rnd@);
        }
        let now = now_unix_nanos();
        let flow = PendingFlow {
            state,
            provider_id: provider_id.to_owned(),
            redirect_uri: redirect_uri.to_owned(),
            nonce,
            pkce_verifier,
            started_at: now,
            expires_at: add_nanos(now, seconds_nanos(self.flow_ttl_seconds)),
        };
        let out = flow.copy();
        self.flows.upsert(flow);
        out
    }

    /// Consume the flow with this state at time `now`: it is removed
    /// either way, and refused if it has expired.
    pub fn consume_flow_at(&mut self, state: &str, now: i64) -> (r: Result<PendingFlow, SsoError>)
        requires
            old(self).wf(),
        ensures
            final(self).wf(),
            final(self).flows() == old(self).flows().remove(state@),
            final(self).sessions() == old(self).sessions(),
            match r {
                Ok(f) => old(self).flows().contains_key(state@) && f@ == old(self).flows()[state@] && now
                    <= f@.expires_at,
                Err(SsoError::StateMismatch) => !old(self).flows().contains_key(state@),
                Err(SsoError::SessionExpired) => old(self).flows().contains_key(state@) && now > old(
                    self,
                ).flows()[state@].expires_at,
                Err(_) => false,
            },
    {
        let flow = match self.flows.remove(state) {
            Some(f) => f,
            None => {
                return Err(SsoError::StateMismatch);
            },
        };
        if now > flow.expires_at {
            return Err(SsoError::SessionExpired);
        }
        Ok(flow)
    }

    /// Consume the flow with this state now; see
    /// [`SsoSessionManager::consume_flow_at`].
    pub fn consume_flow(&mut self, state: &str) -> (r: Result<PendingFlow, SsoError>)
        requires
            old(self).wf(),
        ensures
            final(self).wf(),
            final(self).flows() == old(self).flows().remove(state@),
            final(self).sessions() == old(self).sessions(),
            match r {
                Ok(f) => old(self).flows().contains_key(state@) && f@ == old(self).flows()[state@],
                Err(SsoError::StateMismatch) => !old(self).flows().contains_key(state@),
                Err(SsoError::SessionExpired) => old(self).flows().contains_key(state@),
                Err(_) => false,
            },
    {
        let now = now_unix_nanos();
        self.consume_flow_at(state, now)
    }

    /// Create a session with a fresh id now; it expires a session lifetime
    /// later.
    pub fn create_session(&mut self, user_id: &str, provider_id: &str, idp_subject: &str) -> (s: SsoSession)
        requires
            old(self).wf(),
        ensures
            final(self).wf(),
            s@.id.len() == 36,
            s@.user_id == user_id@,
            s@.provider_id == provider_id@,
            s@.idp_subject == idp_subject@,
            s@.expires_at == clamp_i64(s@.created_at + ttl_nanos(old(self).session_ttl())),
            final(self).sessions() == old(self).sessions().insert(s@.id, s@),
            final(self).flows() == old(self).flows(),
            final(self).flow_ttl() == old(self).flow_ttl(),
            final(self).session_ttl() == old(self).session_ttl(),
    {
        let now = now_unix_nanos();
        let session = SsoSession {
            id: new_uuid(),
            user_id: user_id.to_owned(),
            provider_id: provider_id.to_owned(),
            idp_subject: idp_subject.to_owned(),
            created_at: now,
            expires_at: add_nanos(now, seconds_nanos(self.session_ttl_seconds)),
        };
        let out = session.copy();
        self.sessions.upsert(session);
        out
    }

    /// The session with this id at time `now`, unless it has expired.
    pub fn get_session_at(&self, id: &str, now: i64) -> (r: Option<SsoSession>)
        requires
            self.wf(),
        ensures
            match r {
                Some(s) => self.sessions().contains_key(id@) && s@ == self.sessions()[id@] && now <= s@.expires_at,
                None => !self.sessions().contains_key(id@) || now > self.sessions()[id@].expires_at,
            },
    {
        match self.sessions.find(id) {
            Some(i) => {
                if now > self.sessions.at(i).expires_at {
                    None
                } else {
                    Some(self.sessions.at(i).copy())
                }
            },
            None => None,
        }
    }

    /// The session with this id now, unless it has expired.
    pub fn get_session(&self, id: &str) -> (r: Option<SsoSession>)
        requires
            self.wf(),
        ensures
            match r {
                Some(s) => self.sessions().contains_key(id@) && s@ == self.sessions()[id@],
                None => true,
            },
            !self.sessions().contains_key(id@) ==> r is None,
    {
        let now = now_unix_nanos();
        self.get_session_at(id, now)
    }

    /// Revoke a session; whether it existed.
    pub fn revoke_session(&mut self, id: &str) -> (found: bool)
        requires
            old(self).wf(),
        ensures
            final(self).wf(),
            found == old(self).sessions().contains_key(id@),
            final(self).sessions() == old(self).sessions().remove(id@),
            final(self).flows() == old(self).flows(),
    {
        self.sessions.remove(id).is_some()
    }

    /// Drop the flows and sessions that have expired at time `now` (expiry
    /// not after `now`); how many of each were dropped.
    pub fn purge_expired_at(&mut self, now: i64) -> (r: (usize, usize))
        requires
            old(self).wf(),
        ensures
            final(self).wf(),
            r.0 == old(self).flow_table().seq().filter(flow_expired(now)).len(),
            r.1 == old(self).session_table().seq().filter(session_expired(now)).len(),
            forall|k: Seq<char>| #[trigger] final(self).flows().contains_key(k) <==> (old(self).flows().contains_key(k)
                && old(self).flows()[k].expires_at > now),
            forall|k: Seq<char>| #[trigger] final(self).flows().contains_key(k) ==> final(self).flows()[k] == old(
                self,
            ).flows()[k],
            forall|k: Seq<char>| #[trigger] final(self).sessions().contains_key(k) <==> (old(self).sessions().contains_key(
                k,
            ) && old(self).sessions()[k].expires_at > now),
            forall|k: Seq<char>| #[trigger] final(self).sessions().contains_key(k) ==> final(self).sessions()[k] == old(
                self,
            ).sessions()[k],
    {
        let flows_purged = purge_flows(&mut self.flows, now);
        let sessions_purged = purge_sessions(&mut self.sessions, now);
        (flows_purged, sessions_purged)
    }

    /// Drop the flows and sessions that have expired now; see
    /// [`SsoSessionManager::purge_expired_at`].
    pub fn purge_expired(&mut self) -> (r: (usize, usize))
        requires
            old(self).wf(),
        ensures
            final(self).wf(),
            exists|now: i64|
                r == #[trigger] purge_counts(old(self).flow_table().seq(), old(self).session_table().seq(), now),
    {
        let now = now_unix_nanos();
        let r = self.purge_expired_at(now);
        assert(r == purge_counts(old(self).flow_table().seq(), old(self).session_table().seq(), now));
        r
    }

    /// Number of pending flows.
    pub fn flow_count(&self) -> (n: usize)
        requires
            self.wf(),
        ensures
            n == self.flows().len(),
    {
        self.flows.len()
    }

    /// Number of sessions (expired ones included until purged).
    pub fn session_count(&self) -> (n: usize)
        requires
            self.wf(),
        ensures
            n == self.sessions().len(),
    {
        self.sessions.len()
    }
}

/// Whether a flow has expired at `now`.
pub open spec fn flow_expired(now: i64) -> spec_fn(FlowView) -> bool {
    |f: FlowView| f.expires_at <= now
}

/// Whether a session has expired at `now`.
pub open spec fn session_expired(now: i64) -> spec_fn(SsoSessionView) -> bool {
    |s: SsoSessionView| s.expires_at <= now
}

/// The numbers of flows and of sessions that have expired at `now`.
pub open spec fn purge_counts(flows: Seq<FlowView>, sessions: Seq<SsoSessionView>, now: i64) -> (usize, usize) {
    (flows.filter(flow_expired(now)).len() as usize, sessions.filter(session_expired(now)).len() as usize)
}

fn purge_flows(t: &mut Table<PendingFlow>, now: i64) -> (purged: usize)
    requires
        old(t).wf(),
    ensures
        final(t).wf(),
        purged == old(t).seq().filter(flow_expired(now)).len(),
        forall|k: Seq<char>| #[trigger] final(t).map().contains_key(k) <==> (old(t).map().contains_key(k) && old(
            t,
        ).map()[k].expires_at > now),
        forall|k: Seq<char>| #[trigger] final(t).map().contains_key(k) ==> final(t).map()[k] == old(t).map()[k],
{
    let all = t.all();
    let ghost seq = old(t).seq();
    let ghost p = flow_expired(now);
    let ghost orig = old(t).map();
    let mut purged: usize = 0;
    let mut i: usize = 0;
    proof {
        crate::seq_facts::lemma_filter_take_zero(seq, p);
        old(t).lemma_map();
        old(t).lemma_distinct();
        assert forall|j: int| 0 <= j < seq.len() implies #[trigger] orig[seq[j].state] == seq[j] by {
            assert(orig[PendingFlow::model_key(seq[j])] == seq[j]);
        }
    }
    while i < all.len()
        invariant
            t.wf(),
            i <= all@.len(),
            crate::table::models(all@) == seq,
            crate::keyed::keys_distinct(seq, crate::table::record_key::<PendingFlow>()),
            forall|j: int| 0 <= j < seq.len() ==> #[trigger] orig[seq[j].state] == seq[j],
            forall|k: Seq<char>| #[trigger] orig.contains_key(k) <==> exists|j: int| 0 <= j < seq.len() && seq[j].state == k,
            p == flow_expired(now),
            purged == seq.take(i as int).filter(p).len(),
            purged <= i,
            forall|k: Seq<char>| #[trigger] t.map().contains_key(k) <==> (orig.contains_key(k) && !(exists|j: int|
                0 <= j < i && seq[j].state == k && p(seq[j]))),
            forall|k: Seq<char>| #[trigger] t.map().contains_key(k) ==> t.map()[k] == orig[k],
        decreases all@.len() - i,
    {
        proof {
            crate::seq_facts::lemma_filter_take_step(seq, p, i as int);
        }
        assert(seq[i as int] == all@[i as int]@);
        let ghost key = seq[i as int].state;
        if all[i].expires_at <= now {
            let _ = t.remove(all[i].state.as_str());
            purged = purged + 1;
        }
        proof {
            assert forall|k: Seq<char>| #[trigger] t.map().contains_key(k) <==> (orig.contains_key(k) && !(exists|j: int|
                0 <= j < i + 1 && seq[j].state == k && p(seq[j]))) by {
                if k == key {
                    if exists|j: int| 0 <= j < i && seq[j].state == k && p(seq[j]) {
                        let j = choose|j: int| 0 <= j < i && seq[j].state == k && p(seq[j]);
                        assert(crate::table::record_key::<PendingFlow>()(seq[j]) != crate::table::record_key::<PendingFlow>()(
                            seq[i as int],
                        ));
                    }
                } else {
                    if exists|j: int| 0 <= j < i + 1 && seq[j].state == k && p(seq[j]) {
                        let j = choose|j: int| 0 <= j < i + 1 && seq[j].state == k && p(seq[j]);
                        assert(j != i);
                    }
                }
            }
        }
        i = i + 1;
    }
    proof {
        crate::seq_facts::lemma_take_full(seq);
        assert forall|k: Seq<char>| #[trigger] t.map().contains_key(k) <==> (orig.contains_key(k) && orig[k].expires_at > now) by {
            if orig.contains_key(k) {
                let j = choose|j: int| 0 <= j < seq.len() && seq[j].state == k;
                if exists|jj: int| 0 <= jj < all@.len() && seq[jj].state == k && p(seq[jj]) {
                    let jj = choose|jj: int| 0 <= jj < all@.len() && seq[jj].state == k && p(seq[jj]);
                    if jj != j {
                        assert(crate::table::record_key::<PendingFlow>()(seq[j]) != crate::table::record_key::<PendingFlow>()(
                            seq[jj],
                        )) by {
                            if jj < j {
                            } else {
                            }
                        }
                    }
                }
            }
        }
    }
    purged
}

fn purge_sessions(t: &mut Table<SsoSession>, now: i64) -> (purged: usize)
    requires
        old(t).wf(),
    ensures
        final(t).wf(),
        purged == old(t).seq().filter(session_expired(now)).len(),
        forall|k: Seq<char>| #[trigger] final(t).map().contains_key(k) <==> (old(t).map().contains_key(k) && old(
            t,
        ).map()[k].expires_at > now),
        forall|k: Seq<char>| #[trigger] final(t).map().contains_key(k) ==> final(t).map()[k] == old(t).map()[k],
{
    let all = t.all();
    let ghost seq = old(t).seq();
    let ghost p = session_expired(now);
    let ghost orig = old(t).map();
    let mut purged: usize = 0;
    let mut i: usize = 0;
    proof {
        crate::seq_facts::lemma_filter_take_zero(seq, p);
        old(t).lemma_map();
        old(t).lemma_distinct();
        assert forall|j: int| 0 <= j < seq.len() implies #[trigger] orig[seq[j].id] == seq[j] by {
            assert(orig[SsoSession::model_key(seq[j])] == seq[j]);
        }
    }
    while i < all.len()
        invariant
            t.wf(),
            i <= all@.len(),
            crate::table::models(all@) == seq,
            crate::keyed::keys_distinct(seq, crate::table::record_key::<SsoSession>()),
            forall|j: int| 0 <= j < seq.len() ==> #[trigger] orig[seq[j].id] == seq[j],
            forall|k: Seq<char>| #[trigger] orig.contains_key(k) <==> exists|j: int| 0 <= j < seq.len() && seq[j].id == k,
            p == session_expired(now),
            purged == seq.take(i as int).filter(p).len(),
            purged <= i,
            forall|k: Seq<char>| #[trigger] t.map().contains_key(k) <==> (orig.contains_key(k) && !(exists|j: int|
                0 <= j < i && seq[j].id == k && p(seq[j]))),
            forall|k: Seq<char>| #[trigger] t.map().contains_key(k) ==> t.map()[k] == orig[k],
        decreases all@.len() - i,
    {
        proof {
            crate::seq_facts::lemma_filter_take_step(seq, p, i as int);
        }
        assert(seq[i as int] == all@[i as int]@);
        let ghost key = seq[i as int].id;
        if all[i].expires_at <= now {
            let _ = t.remove(all[i].id.as_str());
            purged = purged + 1;
        }
        proof {
            assert forall|k: Seq<char>| #[trigger] t.map().contains_key(k) <==> (orig.contains_key(k) && !(exists|j: int|
                0 <= j < i + 1 && seq[j].id == k && p(seq[j]))) by {
                if k == key {
                    if exists|j: int| 0 <= j < i && seq[j].id == k && p(seq[j]) {
                        let j = choose|j: int| 0 <= j < i && seq[j].id == k && p(seq[j]);
                        assert(crate::table::record_key::<SsoSession>()(seq[j]) != crate::table::record_key::<SsoSession>()(
                            seq[i as int],
                        ));
                    }
                } else {
                    if exists|j: int| 0 <= j < i + 1 && seq[j].id == k && p(seq[j]) {
                        let j = choose|j: int| 0 <= j < i + 1 && seq[j].id == k && p(seq[j]);
                        assert(j != i);
                    }
                }
            }
        }
        i = i + 1;
    }
    proof {
        crate::seq_facts::lemma_take_full(seq);
        assert forall|k: Seq<char>| #[trigger] t.map().contains_key(k) <==> (orig.contains_key(k) && orig[k].expires_at > now) by {
            if orig.contains_key(k) {
                let j = choose|j: int| 0 <= j < seq.len() && seq[j].id == k;
                if exists|jj: int| 0 <= jj < all@.len() && seq[jj].id == k && p(seq[jj]) {
                    let jj = choose|jj: int| 0 <= jj < all@.len() && seq[jj].id == k && p(seq[jj]);
                    if jj != j {
                        assert(crate::table::record_key::<SsoSession>()(seq[j]) != crate::table::record_key::<SsoSession>()(
                            seq[jj],
                        )) by {
                            if jj < j {
                            } else {
                            }
                        }
                    }
                }
            }
        }
    }
    purged
}

} // verus!
