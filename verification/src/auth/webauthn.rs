//! WebAuthn security keys (YubiKey, Titan, Windows Hello): challenges,
//! registered credentials and their sign counters.
//!
//! Every ceremony consumes the first pending challenge that is unused and
//! younger than five minutes. A credential id is registered once per
//! user; an authentication must carry a sign count above the stored one
//! (once one is stored) and a non-empty signature. The signature itself is
//! not checked against the public key.

use vstd::prelude::*;
use sha2::Digest;
use crate::auth::sso::codec::{hex_encode, hex_lower};
use crate::auth::token::{base64url_encode, base64url_spec};
use crate::sys::{now_unix_nanos, random_bytes};
use crate::table::{Record, Table, models};
use crate::text::str_eq;

verus! {

/// Age, in nanoseconds, from which a challenge has expired: more than 300
/// whole seconds.
pub const CHALLENGE_EXPIRY_NANOS: i64 = 301_000_000_000;

/// A WebAuthn challenge.
#[derive(Debug)]
pub struct Challenge {
    /// The challenge (32 random bytes, URL-safe Base64).
    pub challenge: String,
    /// Creation time (unix nanoseconds).
    pub created_at: i64,
    /// Whether it was used.
    pub used: bool,
}

/// A challenge as values.
pub struct ChallengeView {
    pub challenge: Seq<char>,
    pub created_at: i64,
    pub used: bool,
}

impl View for Challenge {
    type V = ChallengeView;

    open spec fn view(&self) -> ChallengeView {
        ChallengeView { challenge: self.challenge@, created_at: self.created_at, used: self.used }
    }
}

/// Whether a challenge created at `created_at` has expired at `now`: more
/// than 300 whole seconds have passed.
pub open spec fn challenge_expired(created_at: i64, now: i64) -> bool {
    now - created_at >= CHALLENGE_EXPIRY_NANOS
}

impl Challenge {
    /// A fresh challenge created at `now`.
    pub fn generate_at(now: i64) -> (c: Challenge)
        ensures
            exists|rnd: Seq<u8>| rnd.len() == 32 && c.challenge@ == #[trigger] base64url_spec(rnd),
            c.created_at == now,
            !c.used,
    {
        let rnd = random_bytes(32);
        Challenge { challenge: base64url_encode(rnd.as_slice()), created_at: now, used: false }
    }

    /// A fresh challenge created now.
    pub fn generate() -> (c: Challenge)
        ensures
            exists|rnd: Seq<u8>| rnd.len() == 32 && c.challenge@ == #[trigger] base64url_spec(rnd),
            !c.used,
    {
        Challenge::generate_at(now_unix_nanos())
    }

    /// Whether the challenge has expired at time `now`.
    pub fn is_expired_at(&self, now: i64) -> (b: bool)
        ensures
            b == challenge_expired(self.created_at, now),
    {
        (now as i128) - (self.created_at as i128) >= (CHALLENGE_EXPIRY_NANOS as i128)
    }

    /// Whether the challenge has expired now.
    pub fn is_expired(&self) -> (b: bool)
        ensures
            exists|now: i64| b == #[trigger] challenge_expired(self.created_at, now),
    {
        self.is_expired_at(now_unix_nanos())
    }

    /// An independent copy.
    pub fn duplicate(&self) -> (c: Challenge)
        ensures
            c@ == self@,
    {
        Challenge { challenge: self.challenge.clone(), created_at: self.created_at, used: self.used }
    }
}

/// A registered credential.
#[derive(Debug)]
pub struct Credential {
    /// Credential id (URL-safe Base64).
    pub id: String,
    /// Public key (URL-safe Base64).
    pub public_key: String,
    /// Authenticator kind.
    pub authenticator_type: String,
    /// Name given by the user.
    pub label: String,
    /// Registration time (unix nanoseconds).
    pub created_at: i64,
    /// Last use (unix nanoseconds).
    pub last_used_at: Option<i64>,
    /// Signature counter reported by the authenticator.
    pub sign_count: u64,
}

/// A credential as values.
pub struct CredentialView {
    pub id: Seq<char>,
    pub public_key: Seq<char>,
    pub authenticator_type: Seq<char>,
    pub label: Seq<char>,
    pub created_at: i64,
    pub last_used_at: Option<i64>,
    pub sign_count: u64,
}

impl View for Credential {
    type V = CredentialView;

    open spec fn view(&self) -> CredentialView {
        CredentialView {
            id: self.id@,
            public_key: self.public_key@,
            authenticator_type: self.authenticator_type@,
            label: self.label@,
            created_at: self.created_at,
            last_used_at: self.last_used_at,
            sign_count: self.sign_count,
        }
    }
}

impl Credential {
    /// An independent copy.
    pub fn duplicate(&self) -> (c: Credential)
        ensures
            c@ == self@,
    {
        Credential {
            id: self.id.clone(),
            public_key: self.public_key.clone(),
            authenticator_type: self.authenticator_type.clone(),
            label: self.label.clone(),
            created_at: self.created_at,
            last_used_at: self.last_used_at,
            sign_count: self.sign_count,
        }
    }
}

/// What a registration returns.
#[derive(Debug)]
pub struct RegistrationResult {
    /// The registered credential id.
    pub credential_id: String,
    /// Its label.
    pub label: String,
}

/// The WebAuthn state of one user.
#[derive(Debug)]
pub struct UserWebAuthnState {
    /// Registered credentials.
    pub credentials: Vec<Credential>,
    /// Pending challenges.
    pub pending_challenges: Vec<Challenge>,
}

/// A user's state as values.
#[verifier::ext_equal]
pub struct StateView {
    pub credentials: Seq<CredentialView>,
    pub pending: Seq<ChallengeView>,
}

/// The credentials as values.
pub open spec fn credential_views(s: Seq<Credential>) -> Seq<CredentialView> {
    s.map_values(|c: Credential| c@)
}

/// The challenges as values.
pub open spec fn challenge_views(s: Seq<Challenge>) -> Seq<ChallengeView> {
    s.map_values(|c: Challenge| c@)
}

impl View for UserWebAuthnState {
    type V = StateView;

    open spec fn view(&self) -> StateView {
        StateView {
            credentials: credential_views(self.credentials@),
            pending: challenge_views(self.pending_challenges@),
        }
    }
}

impl Default for UserWebAuthnState {
    fn default() -> (s: UserWebAuthnState)
        ensures
            s@ == empty_state(),
    {
        let s = UserWebAuthnState { credentials: Vec::new(), pending_challenges: Vec::new() };
        assert(s@ =~= empty_state());
        s
    }
}

/// The state of a user without credentials or challenges.
pub open spec fn empty_state() -> StateView {
    StateView { credentials: Seq::empty(), pending: Seq::empty() }
}

impl UserWebAuthnState {
    /// An independent copy.
    pub fn duplicate(&self) -> (s: UserWebAuthnState)
        ensures
            s@ == self@,
    {
        let mut credentials: Vec<Credential> = Vec::new();
        let mut i: usize = 0;
        while i < self.credentials.len()
            invariant
                i <= self.credentials@.len(),
                credential_views(credentials@) == credential_views(self.credentials@).take(i as int),
            decreases self.credentials@.len() - i,
        {
            let c = self.credentials[i].duplicate();
            let ghost before = credential_views(credentials@);
            credentials.push(c);
            assert(credential_views(credentials@) =~= before.push(self.credentials@[i as int]@));
            assert(credential_views(self.credentials@).take(i + 1) =~= credential_views(self.credentials@).take(
                i as int,
            ).push(self.credentials@[i as int]@));
            i = i + 1;
        }
        let mut pending: Vec<Challenge> = Vec::new();
        let mut j: usize = 0;
        while j < self.pending_challenges.len()
            invariant
                j <= self.pending_challenges@.len(),
                challenge_views(pending@) == challenge_views(self.pending_challenges@).take(j as int),
            decreases self.pending_challenges@.len() - j,
        {
            let c = self.pending_challenges[j].duplicate();
            let ghost before = challenge_views(pending@);
            pending.push(c);
            assert(challenge_views(pending@) =~= before.push(self.pending_challenges@[j as int]@));
            assert(challenge_views(self.pending_challenges@).take(j + 1) =~= challenge_views(
                self.pending_challenges@,
            ).take(j as int).push(self.pending_challenges@[j as int]@));
            j = j + 1;
        }
        assert(credential_views(self.credentials@).take(self.credentials@.len() as int) =~= credential_views(
            self.credentials@,
        ));
        assert(challenge_views(self.pending_challenges@).take(self.pending_challenges@.len() as int)
            =~= challenge_views(self.pending_challenges@));
        UserWebAuthnState { credentials, pending_challenges: pending }
    }
}

/// A user and its state.
#[derive(Debug)]
pub struct UserEntry {
    /// User id.
    pub user_id: String,
    /// The state.
    pub state: UserWebAuthnState,
}

impl Record for UserEntry {
    type Model = (Seq<char>, StateView);

    open spec fn model(&self) -> (Seq<char>, StateView) {
        (self.user_id@, self.state@)
    }

    open spec fn model_key(m: (Seq<char>, StateView)) -> Seq<char> {
        m.0
    }

    fn key(&self) -> (k: &str) {
        self.user_id.as_str()
    }

    fn copy(&self) -> (r: UserEntry) {
        UserEntry { user_id: self.user_id.clone(), state: self.state.duplicate() }
    }
}

/// Whether the challenge at `i` is usable at `now`: unused, unexpired.
pub open spec fn usable(c: ChallengeView, now: i64) -> bool {
    !c.used && !challenge_expired(c.created_at, now)
}

/// The outcome of finishing a registration at time `now`, from the
/// user's state `o` to `n`: without a usable challenge it is refused and
/// nothing changes; otherwise the first usable challenge is consumed, and
/// the credential is stored unless its id is already registered.
pub open spec fn registration_outcome(
    o: StateView,
    n: StateView,
    credential_id: Seq<char>,
    public_key: Seq<char>,
    authenticator_type: Seq<char>,
    label: Seq<char>,
    now: i64,
    r: Result<RegistrationResult, String>,
) -> bool {
    if none_usable(o.pending, now) {
        &&& r matches Err(m) && m@ == "لا يوجد تحدي صالح"@
        &&& n == o
    } else {
        exists|i: int|
            #[trigger] first_usable(o.pending, now, i) && n.pending == o.pending.remove(i) && if has_credential(
                o,
                credential_id,
            ) {
                &&& r matches Err(m) && m@ == "بيانات اعتماد مسجّلة بالفعل"@
                &&& n.credentials == o.credentials
            } else {
                &&& r matches Ok(res) && res.credential_id@ == credential_id && res.label@ == label
                &&& n.credentials == o.credentials.push(
                    CredentialView {
                        id: credential_id,
                        public_key: public_key,
                        authenticator_type: authenticator_type,
                        label: label,
                        created_at: now,
                        last_used_at: None,
                        sign_count: 0,
                    },
                )
            }
    }
}

/// The outcome of finishing an authentication at time `now`, from the
/// user's state `o` to `n`: without a usable challenge it is refused and
/// nothing changes; otherwise the first usable challenge is consumed; the
/// credential must exist and, once it has a sign count, the new count must
/// be larger; the counter and the time of use are then recorded, and only
/// then is an empty signature refused.
pub open spec fn authentication_outcome(
    o: StateView,
    n: StateView,
    credential_id: Seq<char>,
    signature: Seq<char>,
    sign_count: u64,
    now: i64,
    r: Result<(), String>,
) -> bool {
    if none_usable(o.pending, now) {
        r matches Err(m) && m@ == "لا يوجد تحدي صالح"@ && n == o
    } else {
        exists|i: int|
            #[trigger] first_usable(o.pending, now, i) && n.pending == o.pending.remove(i) && if !has_credential(
                o,
                credential_id,
            ) {
                r matches Err(m) && m@ == "بيانات اعتماد غير موجودة"@ && n.credentials == o.credentials
            } else {
                exists|j: int|
                    0 <= j < o.credentials.len() && #[trigger] o.credentials[j].id == credential_id && (forall|q: int|
                        0 <= q < j ==> o.credentials[q].id != credential_id) && if sign_count
                        <= o.credentials[j].sign_count && o.credentials[j].sign_count > 0 {
                        r matches Err(m) && m@ == "sign count غير صالح (احتمال استنساخ)"@ && n.credentials
                            == o.credentials
                    } else {
                        &&& n.credentials.len() == o.credentials.len()
                        &&& n.credentials[j] == (CredentialView {
                            sign_count,
                            last_used_at: Some(now),
                            ..o.credentials[j]
                        })
                        &&& forall|q: int| 0 <= q < o.credentials.len() && q != j ==> n.credentials[q]
                            == o.credentials[q]
                        &&& if signature.len() == 0 {
                            r matches Err(m) && m@ == "توقيع فارغ"@
                        } else {
                            r is Ok
                        }
                    }
            }
    }
}

/// Whether `i` is the first usable challenge at `now`.
pub open spec fn first_usable(pending: Seq<ChallengeView>, now: i64, i: int) -> bool {
    0 <= i < pending.len() && usable(pending[i], now) && forall|j: int| 0 <= j < i ==> !usable(#[trigger] pending[j], now)
}

/// Whether no challenge is usable at `now`.
pub open spec fn none_usable(pending: Seq<ChallengeView>, now: i64) -> bool {
    forall|j: int| 0 <= j < pending.len() ==> !usable(#[trigger] pending[j], now)
}

fn find_usable(pending: &Vec<Challenge>, now: i64) -> (r: Option<usize>)
    ensures
        match r {
            Some(i) => first_usable(challenge_views(pending@), now, i as int),
            None => none_usable(challenge_views(pending@), now),
        },
{
    let ghost cs = challenge_views(pending@);
    let mut i: usize = 0;
    while i < pending.len()
        invariant
            i <= pending@.len(),
            cs == challenge_views(pending@),
            forall|j: int| 0 <= j < i ==> !usable(#[trigger] cs[j], now),
        decreases pending@.len() - i,
    {
        assert(cs[i as int] == pending@[i as int]@);
        if !pending[i].used && !pending[i].is_expired_at(now) {
            return Some(i);
        }
        i = i + 1;
    }
    None
}

fn find_credential(creds: &Vec<Credential>, id: &str) -> (r: Option<usize>)
    ensures
        match r {
            Some(i) => i < creds@.len() && creds@[i as int].id@ == id@ && forall|j: int| 0 <= j < i ==> creds@[j].id@ != id@,
            None => forall|j: int| 0 <= j < creds@.len() ==> creds@[j].id@ != id@,
        },
{
    let mut i: usize = 0;
    while i < creds.len()
        invariant
            i <= creds@.len(),
            forall|j: int| 0 <= j < i ==> creds@[j].id@ != id@,
        decreases creds@.len() - i,
    {
        if str_eq(creds[i].id.as_str(), id) {
            return Some(i);
        }
        i = i + 1;
    }
    None
}

/// Whether a credential with this id is registered in the state.
pub open spec fn has_credential(s: StateView, id: Seq<char>) -> bool {
    exists|j: int| 0 <= j < s.credentials.len() && #[trigger] s.credentials[j].id == id
}

/// The SHA-256 digest of a byte string.
pub uninterp spec fn sha256(data: Seq<u8>) -> Seq<u8>;

/// SHA-256 (`sha2::Sha256::digest`): a 32-byte digest, named.
#[verifier::external_body]
pub(crate) fn sha256_digest(data: &[u8]) -> (d: Vec<u8>)
    ensures
        d@ == sha256(data@),
        d@.len() == 32,
{
    sha2::Sha256::digest(data).to_vec()
}

/// A stable identifier of some bytes: their SHA-256 digest in lower-case
/// hexadecimal.
pub fn hash_data(data: &[u8]) -> (s: String)
    ensures
        s@ == hex_lower(sha256(data@)),
        s@.len() == 64,
{
    let d = sha256_digest(data);
    proof {
        crate::auth::sso::codec::lemma_hex_lower_len(d@);
    }
    hex_encode(d.as_slice())
}

/// The WebAuthn manager: the state of every user.
#[derive(Debug)]
pub struct WebAuthnManager {
    states: Table<UserEntry>,
}

impl Default for WebAuthnManager {
    fn default() -> (m: WebAuthnManager)
        ensures
            m.wf(),
            m.states() == Map::<Seq<char>, (Seq<char>, StateView)>::empty(),
    {
        WebAuthnManager::new()
    }
}

impl WebAuthnManager {
    /// The state entries by user id.
    pub closed spec fn states(&self) -> Map<Seq<char>, (Seq<char>, StateView)> {
        self.states.map()
    }

    /// The state entries in the order users first appeared.
    pub closed spec fn state_seq(&self) -> Seq<(Seq<char>, StateView)> {
        self.states.seq()
    }

    /// The state of a user; the empty state if there is none.
    pub open spec fn state_of(&self, user: Seq<char>) -> StateView {
        if self.states().contains_key(user) {
            self.states()[user].1
        } else {
            empty_state()
        }
    }

    /// Well-formedness: one state per user.
    pub closed spec fn wf(&self) -> bool {
        self.states.wf()
    }

    /// A manager without users.
    pub fn new() -> (m: WebAuthnManager)
        ensures
            m.wf(),
            m.states() == Map::<Seq<char>, (Seq<char>, StateView)>::empty(),
    {
        WebAuthnManager { states: Table::new() }
    }

    proof fn lemma_users(&self)
        requires
            self.wf(),
        ensures
            forall|k: Seq<char>| #[trigger] self.states().contains_key(k) <==> exists|q: int|
                0 <= q < self.state_seq().len() && self.state_seq()[q].0 == k,
            forall|a: int, b: int| 0 <= a < b < self.state_seq().len() ==> self.state_seq()[a].0 != self.state_seq()[b].0,
    {
        self.states.lemma_map();
        self.states.lemma_distinct();
    }

    fn take_state(&mut self, user_id: &str) -> (s: UserWebAuthnState)
        requires
            old(self).wf(),
        ensures
            final(self).wf(),
            s@ == old(self).state_of(user_id@),
            final(self).states() == old(self).states(),
    {
        match self.states.find(user_id) {
            Some(i) => self.states.at(i).state.duplicate(),
            None => UserWebAuthnState::default(),
        }
    }

    fn put_state(&mut self, user_id: &str, s: UserWebAuthnState)
        requires
            old(self).wf(),
        ensures
            final(self).wf(),
            final(self).states() == old(self).states().insert(user_id@, (user_id@, s@)),
            forall|k: Seq<char>| k != user_id@ ==> #[trigger] final(self).state_of(k) == old(self).state_of(k),
            final(self).state_of(user_id@) == s@,
    {
        self.states.upsert(UserEntry { user_id: user_id.to_owned(), state: s });
    }

    /// Start a registration at time `now`: a fresh challenge is added to
    /// the user's pending challenges.
    pub fn begin_registration_at(&mut self, user_id: &str, now: i64) -> (c: Challenge)
        requires
            old(self).wf(),
        ensures
            final(self).wf(),
            c.created_at == now && !c.used,
            final(self).state_of(user_id@) == (StateView {
                pending: old(self).state_of(user_id@).pending.push(c@),
                ..old(self).state_of(user_id@)
            }),
            forall|k: Seq<char>| k != user_id@ ==> #[trigger] final(self).state_of(k) == old(self).state_of(k),
    {
        let challenge = Challenge::generate_at(now);
        let mut s = self.take_state(user_id);
        let ghost before = s@;
        s.pending_challenges.push(challenge.duplicate());
        assert(s@ =~= StateView { pending: before.pending.push(challenge@), ..before });
        self.put_state(user_id, s);
        challenge
    }

    /// Start a registration now.
    pub fn begin_registration(&mut self, user_id: &str) -> (c: Challenge)
        requires
            old(self).wf(),
        ensures
            final(self).wf(),
            final(self).state_of(user_id@) == (StateView {
                pending: old(self).state_of(user_id@).pending.push(c@),
                ..old(self).state_of(user_id@)
            }),
            forall|k: Seq<char>| k != user_id@ ==> #[trigger] final(self).state_of(k) == old(self).state_of(k),
    {
        self.begin_registration_at(user_id, now_unix_nanos())
    }

    /// Finish a registration at time `now`: the first usable challenge is
    /// consumed, and the credential is stored unless its id is already
    /// registered for the user.
    pub fn complete_registration_at(
        &mut self,
        user_id: &str,
        challenge_response: &str,
        credential_id: &str,
        public_key: &str,
        authenticator_type: &str,
        label: &str,
        now: i64,
    ) -> (r: Result<RegistrationResult, String>)
        requires
            old(self).wf(),
        ensures
            final(self).wf(),
            forall|k: Seq<char>| k != user_id@ ==> #[trigger] final(self).state_of(k) == old(self).state_of(k),
            registration_outcome(
                old(self).state_of(user_id@),
                final(self).state_of(user_id@),
                credential_id@,
                public_key@,
                authenticator_type@,
                label@,
                now,
                r,
            ),
    {
        let mut s = self.take_state(user_id);
        let ghost o = s@;
        let idx = match find_usable(&s.pending_challenges, now) {
            Some(i) => i,
            None => {
                self.put_state(user_id, s);
                return Err("لا يوجد تحدي صالح".to_owned());
            },
        };
        s.pending_challenges.remove(idx);
        assert(s@.pending =~= o.pending.remove(idx as int));
        if let Some(j) = find_credential(&s.credentials, credential_id) {
            assert(s@.credentials[j as int].id == credential_id@);
            self.put_state(user_id, s);
            return Err("بيانات اعتماد مسجّلة بالفعل".to_owned());
        }
        proof {
            if has_credential(o, credential_id@) {
                let j = choose|j: int| 0 <= j < o.credentials.len() && #[trigger] o.credentials[j].id == credential_id@;
                assert(s.credentials@[j].id@ == credential_id@);
            }
        }
        let credential = Credential {
            id: credential_id.to_owned(),
            public_key: public_key.to_owned(),
            authenticator_type: authenticator_type.to_owned(),
            label: label.to_owned(),
            created_at: now,
            last_used_at: None,
            sign_count: 0,
        };
        let ghost cv = credential@;
        s.credentials.push(credential);
        assert(s@.credentials =~= o.credentials.push(cv));
        self.put_state(user_id, s);
        Ok(RegistrationResult { credential_id: credential_id.to_owned(), label: label.to_owned() })
    }

    /// Finish a registration now; see
    /// [`WebAuthnManager::complete_registration_at`].
    pub fn complete_registration(
        &mut self,
        user_id: &str,
        challenge_response: &str,
        credential_id: &str,
        public_key: &str,
        authenticator_type: &str,
        label: &str,
    ) -> (r: Result<RegistrationResult, String>)
        requires
            old(self).wf(),
        ensures
            final(self).wf(),
            forall|k: Seq<char>| k != user_id@ ==> #[trigger] final(self).state_of(k) == old(self).state_of(k),
            r matches Ok(res) ==> res.credential_id@ == credential_id@ && !has_credential(
                old(self).state_of(user_id@),
                credential_id@,
            ) && has_credential(final(self).state_of(user_id@), credential_id@),
            exists|now: i64|
                #[trigger] registration_outcome(
                    old(self).state_of(user_id@),
                    final(self).state_of(user_id@),
                    credential_id@,
                    public_key@,
                    authenticator_type@,
                    label@,
                    now,
                    r,
                ),
    {
        let now = now_unix_nanos();
        let r = self.complete_registration_at(
            user_id,
            challenge_response,
            credential_id,
            public_key,
            authenticator_type,
            label,
            now,
        );
        proof {
            if r is Ok {
                let n = self.state_of(user_id@);
                let o = old(self).state_of(user_id@);
                assert(n.credentials[o.credentials.len() as int].id == credential_id@);
            }
        }
        r
    }

    /// Start an authentication at time `now`: refused without credentials;
    /// otherwise a fresh challenge is added to the pending ones.
    pub fn begin_authentication_at(&mut self, user_id: &str, now: i64) -> (r: Result<Challenge, String>)
        requires
            old(self).wf(),
        ensures
            final(self).wf(),
            forall|k: Seq<char>| k != user_id@ ==> #[trigger] final(self).state_of(k) == old(self).state_of(k),
            ({
                let o = old(self).state_of(user_id@);
                let n = final(self).state_of(user_id@);
                if o.credentials.len() == 0 {
                    r matches Err(m) && m@ == "لا توجد بيانات اعتماد مسجّلة"@ && n == o
                } else {
                    r matches Ok(c) && c.created_at == now && !c.used && n == (StateView { pending: o.pending.push(c@), ..o })
                }
            }),
    {
        let mut s = self.take_state(user_id);
        if s.credentials.len() == 0 {
            self.put_state(user_id, s);
            return Err("لا توجد بيانات اعتماد مسجّلة".to_owned());
        }
        let challenge = Challenge::generate_at(now);
        let ghost before = s@;
        s.pending_challenges.push(challenge.duplicate());
        assert(s@ =~= StateView { pending: before.pending.push(challenge@), ..before });
        self.put_state(user_id, s);
        Ok(challenge)
    }

    /// Start an authentication now.
    pub fn begin_authentication(&mut self, user_id: &str) -> (r: Result<Challenge, String>)
        requires
            old(self).wf(),
        ensures
            final(self).wf(),
            r is Err <==> old(self).state_of(user_id@).credentials.len() == 0,
    {
        self.begin_authentication_at(user_id, now_unix_nanos())
    }

    /// Finish an authentication at time `now`: the first usable challenge
    /// is consumed; the credential must exist and, once it has a sign
    /// count, the new count must be larger. The counter and the time of
    /// use are recorded, and only then is an empty signature refused.
    pub fn complete_authentication_at(
        &mut self,
        user_id: &str,
        credential_id: &str,
        signature: &str,
        sign_count: u64,
        now: i64,
    ) -> (r: Result<(), String>)
        requires
            old(self).wf(),
        ensures
            final(self).wf(),
            forall|k: Seq<char>| k != user_id@ ==> #[trigger] final(self).state_of(k) == old(self).state_of(k),
            authentication_outcome(
                old(self).state_of(user_id@),
                final(self).state_of(user_id@),
                credential_id@,
                signature@,
                sign_count,
                now,
                r,
            ),
    {
        let mut s = self.take_state(user_id);
        let ghost o = s@;
        let idx = match find_usable(&s.pending_challenges, now) {
            Some(i) => i,
            None => {
                self.put_state(user_id, s);
                return Err("لا يوجد تحدي صالح".to_owned());
            },
        };
        s.pending_challenges.remove(idx);
        assert(s@.pending =~= o.pending.remove(idx as int));
        let j = match find_credential(&s.credentials, credential_id) {
            Some(j) => j,
            None => {
                proof {
                    if has_credential(o, credential_id@) {
                        let q = choose|q: int| 0 <= q < o.credentials.len() && #[trigger] o.credentials[q].id == credential_id@;
                        assert(s.credentials@[q].id@ == credential_id@);
                    }
                }
                self.put_state(user_id, s);
                return Err("بيانات اعتماد غير موجودة".to_owned());
            },
        };
        assert(o.credentials[j as int].id == credential_id@);
        let stored = s.credentials[j].sign_count;
        if sign_count <= stored && stored > 0 {
            self.put_state(user_id, s);
            return Err("sign count غير صالح (احتمال استنساخ)".to_owned());
        }
        let mut cred = s.credentials[j].duplicate();
        cred.sign_count = sign_count;
        cred.last_used_at = Some(now);
        let ghost cv = cred@;
        s.credentials.set(j, cred);
        assert(s@.credentials =~= o.credentials.update(j as int, cv));
        self.put_state(user_id, s);
        if signature.unicode_len() == 0 {
            return Err("توقيع فارغ".to_owned());
        }
        Ok(())
    }

    /// Finish an authentication now; see
    /// [`WebAuthnManager::complete_authentication_at`].
    pub fn complete_authentication(&mut self, user_id: &str, credential_id: &str, signature: &str, sign_count: u64) -> (r:
        Result<(), String>)
        requires
            old(self).wf(),
        ensures
            final(self).wf(),
            forall|k: Seq<char>| k != user_id@ ==> #[trigger] final(self).state_of(k) == old(self).state_of(k),
            r is Ok ==> signature@.len() > 0 && has_credential(old(self).state_of(user_id@), credential_id@),
            exists|now: i64|
                #[trigger] authentication_outcome(
                    old(self).state_of(user_id@),
                    final(self).state_of(user_id@),
                    credential_id@,
                    signature@,
                    sign_count,
                    now,
                    r,
                ),
    {
        let now = now_unix_nanos();
        self.complete_authentication_at(user_id, credential_id, signature, sign_count, now)
    }

    /// Whether a user has a credential.
    pub fn is_registered(&self, user_id: &str) -> (b: bool)
        requires
            self.wf(),
        ensures
            b == (self.state_of(user_id@).credentials.len() > 0),
    {
        match self.states.find(user_id) {
            Some(i) => self.states.at(i).state.credentials.len() > 0,
            None => false,
        }
    }

    /// The credentials of a user.
    pub fn list_credentials(&self, user_id: &str) -> (r: Vec<Credential>)
        requires
            self.wf(),
        ensures
            credential_views(r@) == self.state_of(user_id@).credentials,
    {
        match self.states.find(user_id) {
            Some(i) => self.states.at(i).state.duplicate().credentials,
            None => {
                let r: Vec<Credential> = Vec::new();
                assert(credential_views(r@) =~= Seq::<CredentialView>::empty());
                r
            },
        }
    }

    /// Remove a user's credentials with this id; whether there was one.
    pub fn remove_credential(&mut self, user_id: &str, credential_id: &str) -> (removed: bool)
        requires
            old(self).wf(),
        ensures
            final(self).wf(),
            forall|k: Seq<char>| k != user_id@ ==> #[trigger] final(self).state_of(k) == old(self).state_of(k),
            removed == has_credential(old(self).state_of(user_id@), credential_id@),
            final(self).state_of(user_id@) == (StateView {
                credentials: old(self).state_of(user_id@).credentials.filter(
                    |c: CredentialView| c.id != credential_id@,
                ),
                ..old(self).state_of(user_id@)
            }),
    {
        let i = match self.states.find(user_id) {
            Some(i) => i,
            None => {
                proof {
                    assert(empty_state().credentials.filter(|c: CredentialView| c.id != credential_id@) =~= empty_state().credentials);
                }
                return false;
            },
        };
        let mut s = self.states.at(i).state.duplicate();
        let ghost o = s@;
        let ghost p = |c: CredentialView| c.id != credential_id@;
        let mut kept: Vec<Credential> = Vec::new();
        let mut removed = false;
        let mut j: usize = 0;
        proof {
            crate::seq_facts::lemma_filter_take_zero(o.credentials, p);
        }
        while j < s.credentials.len()
            invariant
                j <= s.credentials@.len(),
                credential_views(s.credentials@) == o.credentials,
                p == (|c: CredentialView| c.id != credential_id@),
                credential_views(kept@) == o.credentials.take(j as int).filter(p),
                removed == exists|q: int| 0 <= q < j && #[trigger] o.credentials[q].id == credential_id@,
            decreases s.credentials@.len() - j,
        {
            proof {
                crate::seq_facts::lemma_filter_take_step(o.credentials, p, j as int);
            }
            assert(o.credentials[j as int] == s.credentials@[j as int]@);
            if str_eq(s.credentials[j].id.as_str(), credential_id) {
                removed = true;
            } else {
                let c = s.credentials[j].duplicate();
                let ghost before = credential_views(kept@);
                kept.push(c);
                assert(credential_views(kept@) =~= before.push(o.credentials[j as int]));
            }
            j = j + 1;
        }
        proof {
            crate::seq_facts::lemma_take_full(o.credentials);
        }
        s.credentials = kept;
        self.put_state(user_id, s);
        removed
    }

    /// Number of users with at least one credential.
    pub fn registered_count(&self) -> (n: usize)
        ensures
            n == self.state_seq().filter(|e: (Seq<char>, StateView)| e.1.credentials.len() > 0).len(),
    {
        let all = self.states.all();
        let ghost seq = self.state_seq();
        let ghost p = |e: (Seq<char>, StateView)| e.1.credentials.len() > 0;
        let mut n: usize = 0;
        let mut i: usize = 0;
        proof {
            crate::seq_facts::lemma_filter_take_zero(seq, p);
        }
        while i < all.len()
            invariant
                i <= all@.len(),
                models(all@) == seq,
                p == (|e: (Seq<char>, StateView)| e.1.credentials.len() > 0),
                n == seq.take(i as int).filter(p).len(),
                n <= i,
            decreases all@.len() - i,
        {
            proof {
                crate::seq_facts::lemma_filter_take_step(seq, p, i as int);
            }
            assert(seq[i as int] == all@[i as int].model());
            if all[i].state.credentials.len() > 0 {
                n = n + 1;
            }
            i = i + 1;
        }
        proof {
            crate::seq_facts::lemma_take_full(seq);
        }
        n
    }

    /// Drop the pending challenges that have expired at time `now`, for
    /// every user; how many were dropped.
    pub fn cleanup_expired_challenges_at(&mut self, now: i64) -> (total: usize)
        requires
            old(self).wf(),
        ensures
            final(self).wf(),
            forall|k: Seq<char>| #[trigger] final(self).state_of(k) == (StateView {
                pending: old(self).state_of(k).pending.filter(|c: ChallengeView| !challenge_expired(c.created_at, now)),
                ..old(self).state_of(k)
            }),
    {
        let all = self.states.all();
        proof {
            self.lemma_users();
        }
        let mut total: usize = 0;
        let mut i: usize = 0;
        while i < all.len()
            invariant
                self.wf(),
                i <= all@.len(),
                models(all@) == old(self).state_seq(),
                forall|a: int, b: int| 0 <= a < b < old(self).state_seq().len() ==> old(self).state_seq()[a].0
                    != old(self).state_seq()[b].0,
                forall|k: Seq<char>| #[trigger] self.state_of(k) == (if exists|q: int| 0 <= q < i && all@[q].user_id@ == k {
                    StateView {
                        pending: old(self).state_of(k).pending.filter(|c: ChallengeView| !challenge_expired(c.created_at, now)),
                        ..old(self).state_of(k)
                    }
                } else {
                    old(self).state_of(k)
                }),
            decreases all@.len() - i,
        {
            let user = all[i].user_id.clone();
            let ghost head = *self;
            proof {
                assert(old(self).state_seq()[i as int] == all@[i as int].model());
                assert forall|q: int| 0 <= q < i implies all@[q].user_id@ != user@ by {
                    assert(old(self).state_seq()[q] == all@[q].model());
                }
                assert(self.state_of(user@) == old(self).state_of(user@));
            }
            let mut s = self.take_state(user.as_str());
            let ghost o = s@;
            let ghost p = |c: ChallengeView| !challenge_expired(c.created_at, now);
            let mut kept: Vec<Challenge> = Vec::new();
            let mut j: usize = 0;
            proof {
                crate::seq_facts::lemma_filter_take_zero(o.pending, p);
            }
            while j < s.pending_challenges.len()
                invariant
                    j <= s.pending_challenges@.len(),
                    challenge_views(s.pending_challenges@) == o.pending,
                    p == (|c: ChallengeView| !challenge_expired(c.created_at, now)),
                    challenge_views(kept@) == o.pending.take(j as int).filter(p),
                decreases s.pending_challenges@.len() - j,
            {
                proof {
                    crate::seq_facts::lemma_filter_take_step(o.pending, p, j as int);
                }
                assert(o.pending[j as int] == s.pending_challenges@[j as int]@);
                if !s.pending_challenges[j].is_expired_at(now) {
                    let c = s.pending_challenges[j].duplicate();
                    let ghost before = challenge_views(kept@);
                    kept.push(c);
                    assert(challenge_views(kept@) =~= before.push(o.pending[j as int]));
                }
                j = j + 1;
            }
            proof {
                crate::seq_facts::lemma_take_full(o.pending);
            }
            let dropped = s.pending_challenges.len() - kept.len();
            s.pending_challenges = kept;
            let ghost sv = s@;
            let ghost mid = *self;
            assert(sv == StateView { pending: o.pending.filter(p), ..o });
            self.put_state(user.as_str(), s);
            proof {
                assert forall|k: Seq<char>| #[trigger] self.state_of(k) == (if exists|q: int|
                    0 <= q < i + 1 && all@[q].user_id@ == k {
                    StateView {
                        pending: old(self).state_of(k).pending.filter(|c: ChallengeView| !challenge_expired(c.created_at, now)),
                        ..old(self).state_of(k)
                    }
                } else {
                    old(self).state_of(k)
                }) by {
                    if k == user@ {
                        assert(all@[i as int].user_id@ == k);
                        assert(self.state_of(k) == sv);
                        assert(o == old(self).state_of(k));
                        assert(sv.pending == old(self).state_of(k).pending.filter(p));
                    } else {
                        assert(self.state_of(k) == mid.state_of(k));
                        assert(mid.state_of(k) == head.state_of(k));
                        if exists|q: int| 0 <= q < i + 1 && all@[q].user_id@ == k {
                            let q = choose|q: int| 0 <= q < i + 1 && all@[q].user_id@ == k;
                            assert(q < i);
                        }
                    }
                }
            }
            total = total.saturating_add(dropped);
            i = i + 1;
        }
        proof {
            assert forall|k: Seq<char>| #[trigger] self.state_of(k) == (StateView {
                pending: old(self).state_of(k).pending.filter(|c: ChallengeView| !challenge_expired(c.created_at, now)),
                ..old(self).state_of(k)
            }) by {
                if !(exists|q: int| 0 <= q < all@.len() && all@[q].user_id@ == k) {
                    if old(self).states().contains_key(k) {
                        let q = choose|q: int| 0 <= q < old(self).state_seq().len() && old(self).state_seq()[q].0 == k;
                        assert(old(self).state_seq()[q] == all@[q].model());
                    }
                    assert(empty_state().pending.filter(|c: ChallengeView| !challenge_expired(c.created_at, now))
                        =~= empty_state().pending);
                }
            }
        }
        total
    }

    /// Drop the pending challenges that have expired now.
    pub fn cleanup_expired_challenges(&mut self) -> (total: usize)
        requires
            old(self).wf(),
        ensures
            final(self).wf(),
    {
        self.cleanup_expired_challenges_at(now_unix_nanos())
    }
}

} // verus!
