//! Multi-factor authentication: TOTP secrets and recovery codes attached
//! to user accounts.
//!
//! A recovery code is accepted once; after that it reads as already used
//! until the codes are regenerated or MFA is enrolled again.

use vstd::prelude::*;
use crate::auth::sso::codec::{hex_decode, hex_decoded, hex_encode, hex_lower, lemma_hex_roundtrip};
use crate::auth::totp::{
    PERIOD, TotpSecret, accepted_at_offset, all_backup_codes, code_accepted, counter_bytes, generate_backup_codes,
    alphanumeric_known, hmac_sha1_spec, hotp_truncate, otpauth_url_spec, verify_code, verify_code_at,
};
use crate::sys::{now_unix_nanos, system_unix_seconds};
use crate::table::{Record, Table, models};
use crate::text::{contains_str, copy_strings, decimal_digits, push_str, texts};

verus! {

/// Number of recovery codes handed out.
pub const BACKUP_CODE_COUNT: usize = 10;

/// A TOTP secret as stored: its bytes in hexadecimal.
#[derive(Debug)]
pub struct TotpSecretData {
    /// The secret bytes, lower-case hexadecimal.
    pub hex_bytes: String,
}

/// The message prefix of an unreadable stored secret.
pub open spec fn hex_error_prefix() -> Seq<char> {
    "فشل فك تشفير hex: "@
}

impl TotpSecretData {
    /// The stored form of a secret.
    pub fn from_secret(secret: &TotpSecret) -> (d: TotpSecretData)
        ensures
            d.hex_bytes@ == hex_lower(secret.bytes@),
    {
        TotpSecretData { hex_bytes: hex_encode(secret.bytes.as_slice()) }
    }

    /// The secret back from its stored form.
    pub fn to_secret(&self) -> (r: Result<TotpSecret, String>)
        ensures
            match hex_decoded(self.hex_bytes@) {
                Some(b) => r matches Ok(s) && s.bytes@ == b,
                None => r matches Err(m) && hex_error_prefix().is_prefix_of(m@),
            },
    {
        match hex_decode(self.hex_bytes.as_str()) {
            Ok(bytes) => Ok(TotpSecret::from_bytes(bytes)),
            Err(e) => {
                let mut m = "فشل فك تشفير hex: ".to_owned();
                let ghost before = m@;
                push_str(&mut m, e.as_str());
                assert(m@.subrange(0, before.len() as int) =~= before);
                Err(m)
            },
        }
    }

    /// An independent copy.
    pub fn duplicate(&self) -> (d: TotpSecretData)
        ensures
            d.hex_bytes@ == self.hex_bytes@,
    {
        TotpSecretData { hex_bytes: self.hex_bytes.clone() }
    }
}

/// A stored secret reads back as the secret it was made from.
pub proof fn lemma_secret_data_roundtrip(secret: Seq<u8>)
    ensures
        hex_decoded(hex_lower(secret)) == Some(secret),
{
    lemma_hex_roundtrip(secret);
}

/// The MFA state of one user.
#[derive(Debug)]
pub struct MfaState {
    /// User id.
    pub user_id: String,
    /// The TOTP secret, once enrolled.
    pub secret: Option<TotpSecretData>,
    /// Recovery codes for a lost device.
    pub backup_codes: Vec<String>,
    /// Recovery codes already used (each once).
    pub used_backup_codes: Vec<String>,
    /// Whether MFA is on.
    pub enabled: bool,
    /// When MFA was turned on (unix nanoseconds).
    pub enabled_at: Option<i64>,
}

/// An MFA state as values.
#[verifier::ext_equal]
pub struct MfaStateView {
    pub user_id: Seq<char>,
    pub secret: Option<Seq<char>>,
    pub backup_codes: Seq<Seq<char>>,
    pub used_backup_codes: Seq<Seq<char>>,
    pub enabled: bool,
    pub enabled_at: Option<i64>,
}

impl View for MfaState {
    type V = MfaStateView;

    open spec fn view(&self) -> MfaStateView {
        MfaStateView {
            user_id: self.user_id@,
            secret: match self.secret {
                Some(d) => Some(d.hex_bytes@),
                None => None,
            },
            backup_codes: texts(self.backup_codes@),
            used_backup_codes: texts(self.used_backup_codes@),
            enabled: self.enabled,
            enabled_at: self.enabled_at,
        }
    }
}

impl MfaState {
    /// The state of a user without MFA.
    pub fn new(user_id: &str) -> (s: MfaState)
        ensures
            s@ == (MfaStateView {
                user_id: user_id@,
                secret: None,
                backup_codes: Seq::empty(),
                used_backup_codes: Seq::empty(),
                enabled: false,
                enabled_at: None,
            }),
    {
        let s = MfaState {
            user_id: user_id.to_owned(),
            secret: None,
            backup_codes: Vec::new(),
            used_backup_codes: Vec::new(),
            enabled: false,
            enabled_at: None,
        };
        assert(s@.backup_codes =~= Seq::<Seq<char>>::empty());
        assert(s@.used_backup_codes =~= Seq::<Seq<char>>::empty());
        s
    }

    /// Whether MFA is on.
    pub fn is_enabled(&self) -> (b: bool)
        ensures
            b == self.enabled,
    {
        self.enabled
    }

    /// An independent copy.
    pub fn duplicate(&self) -> (s: MfaState)
        ensures
            s@ == self@,
    {
        MfaState {
            user_id: self.user_id.clone(),
            secret: match &self.secret {
                Some(d) => Some(d.duplicate()),
                None => None,
            },
            backup_codes: copy_strings(&self.backup_codes),
            used_backup_codes: copy_strings(&self.used_backup_codes),
            enabled: self.enabled,
            enabled_at: self.enabled_at,
        }
    }
}

impl Record for MfaState {
    type Model = MfaStateView;

    open spec fn model(&self) -> MfaStateView {
        self@
    }

    open spec fn model_key(m: MfaStateView) -> Seq<char> {
        m.user_id
    }

    fn key(&self) -> (k: &str) {
        self.user_id.as_str()
    }

    fn copy(&self) -> (r: MfaState) {
        self.duplicate()
    }
}

/// What enrolment hands the user for their authenticator app.
#[derive(Debug)]
pub struct MfaEnrollment {
    /// The shared secret.
    pub secret: TotpSecret,
    /// The `otpauth://` URL (for a QR code).
    pub otpauth_url: String,
    /// The recovery codes.
    pub backup_codes: Vec<String>,
}

/// Outcome of checking an MFA code.
#[derive(Debug, PartialEq, Eq)]
pub enum MfaVerifyResult {
    /// The code is valid.
    Valid,
    /// The code is not valid.
    Invalid,
    /// The user has no MFA.
    NotEnrolled,
    /// The recovery code was already used.
    AlreadyUsed,
    /// The check failed.
    Error(String),
}

/// The outcome of checking `code` for a state at TOTP time step `counter`,
/// and the state afterwards.
pub open spec fn verify_outcome(
    state: Option<MfaStateView>,
    code: Seq<char>,
    counter: u64,
    r: MfaVerifyResult,
    after: Option<MfaStateView>,
) -> bool {
    match state {
        None => r == MfaVerifyResult::NotEnrolled && after == state,
        Some(s) => if !s.enabled || s.secret is None {
            r == MfaVerifyResult::NotEnrolled && after == state
        } else {
            match hex_decoded(s.secret->0) {
                None => (r matches MfaVerifyResult::Error(m) && m@ == "فشل تحميل السر"@) && after == state,
                Some(secret) => if code_accepted(secret, code, counter) {
                    r == MfaVerifyResult::Valid && after == state
                } else if s.backup_codes.contains(code) {
                    if s.used_backup_codes.contains(code) {
                        r == MfaVerifyResult::AlreadyUsed && after == state
                    } else {
                        r == MfaVerifyResult::Valid && after == Some(
                            MfaStateView { used_backup_codes: s.used_backup_codes.push(code), ..s },
                        )
                    }
                } else {
                    r == MfaVerifyResult::Invalid && after == state
                },
            }
        },
    }
}

/// The outcome of finishing an enrolment with code `code` at TOTP time
/// step `counter`, from the states `before` to `after`: with a code
/// accepted for the secret, the user's state holds the secret and the
/// recovery codes, none used, and MFA is on, every other state unchanged;
/// otherwise the code is refused and nothing changes.
pub open spec fn enrollment_outcome(
    before: Map<Seq<char>, MfaStateView>,
    after: Map<Seq<char>, MfaStateView>,
    user: Seq<char>,
    secret: Seq<u8>,
    backup_codes: Seq<Seq<char>>,
    code: Seq<char>,
    counter: u64,
    r: Result<(), String>,
) -> bool {
    match r {
        Ok(()) => {
            &&& code_accepted(secret, code, counter)
            &&& after.dom() == before.dom().insert(user)
            &&& forall|k: Seq<char>| k != user && #[trigger] before.contains_key(k) ==> after[k] == before[k]
            &&& {
                let s = after[user];
                &&& s.user_id == user
                &&& s.secret == Some(hex_lower(secret))
                &&& s.backup_codes == backup_codes
                &&& s.used_backup_codes.len() == 0
                &&& s.enabled
                &&& s.enabled_at is Some
            }
        },
        Err(m) => !code_accepted(secret, code, counter) && m@ == "رمز التحقق غير صالح"@ && after == before,
    }
}

/// The MFA manager: the state of every user that enrolled.
#[derive(Debug)]
pub struct MfaManager {
    states: Table<MfaState>,
}

impl Default for MfaManager {
    fn default() -> (m: MfaManager)
        ensures
            m.wf(),
            m.states() == Map::<Seq<char>, MfaStateView>::empty(),
    {
        MfaManager::new()
    }
}

impl MfaManager {
    /// The states by user id.
    pub open spec fn states(&self) -> Map<Seq<char>, MfaStateView> {
        self.table().map()
    }

    /// The state table.
    pub closed spec fn table(&self) -> Table<MfaState> {
        self.states
    }

    /// The state of a user, if any.
    pub open spec fn state_of(&self, user: Seq<char>) -> Option<MfaStateView> {
        if self.states().contains_key(user) {
            Some(self.states()[user])
        } else {
            None
        }
    }

    /// Well-formedness: one state per user.
    pub closed spec fn wf(&self) -> bool {
        self.states.wf()
    }

    /// A manager without users.
    pub fn new() -> (m: MfaManager)
        ensures
            m.wf(),
            m.states() == Map::<Seq<char>, MfaStateView>::empty(),
    {
        MfaManager { states: Table::new() }
    }

    /// Start enrolment: a fresh secret, its `otpauth://` URL for issuer
    /// `Nexora` and ten recovery codes. Nothing is stored yet.
    pub fn begin_enrollment(&self, user_id: &str) -> (e: MfaEnrollment)
        ensures
            e.secret.bytes@.len() == 20,
            e.otpauth_url@ == otpauth_url_spec(e.secret.bytes@, "Nexora"@, user_id@),
            alphanumeric_known(user_id@),
            e.backup_codes@.len() == BACKUP_CODE_COUNT,
            all_backup_codes(e.backup_codes@),
    {
        let secret = TotpSecret::generate();
        let otpauth_url = secret.to_otpauth_url("Nexora", user_id);
        MfaEnrollment { secret, otpauth_url, backup_codes: generate_backup_codes(BACKUP_CODE_COUNT) }
    }

    /// Finish enrolment at TOTP time step `counter`: with a valid code the
    /// user's state holds the secret and the recovery codes, with none
    /// used, and MFA is on; otherwise nothing changes.
    pub fn complete_enrollment_at(&mut self, user_id: &str, enrollment: &MfaEnrollment, code: &str, counter: u64) -> (r:
        Result<(), String>)
        requires
            old(self).wf(),
            counter as int + crate::auth::totp::TOLERANCE <= u64::MAX,
        ensures
            final(self).wf(),
            r is Err ==> final(self).table() == old(self).table(),
            enrollment_outcome(
                old(self).states(),
                final(self).states(),
                user_id@,
                enrollment.secret.bytes@,
                texts(enrollment.backup_codes@),
                code@,
                counter,
                r,
            ),
    {
        if !verify_code_at(&enrollment.secret, code, counter) {
            return Err("رمز التحقق غير صالح".to_owned());
        }
        let state = MfaState {
            user_id: user_id.to_owned(),
            secret: Some(TotpSecretData::from_secret(&enrollment.secret)),
            backup_codes: copy_strings(&enrollment.backup_codes),
            used_backup_codes: Vec::new(),
            enabled: true,
            enabled_at: Some(now_unix_nanos()),
        };
        assert(state@.used_backup_codes =~= Seq::<Seq<char>>::empty());
        self.states.upsert(state);
        Ok(())
    }

    /// Finish enrolment now; see [`MfaManager::complete_enrollment_at`].
    pub fn complete_enrollment(&mut self, user_id: &str, enrollment: &MfaEnrollment, code: &str) -> (r: Result<
        (),
        String,
    >)
        requires
            old(self).wf(),
        ensures
            final(self).wf(),
            r is Err ==> final(self).table() == old(self).table(),
            exists|now: u64|
                #[trigger] enrollment_outcome(
                    old(self).states(),
                    final(self).states(),
                    user_id@,
                    enrollment.secret.bytes@,
                    texts(enrollment.backup_codes@),
                    code@,
                    now / PERIOD,
                    r,
                ),
    {
        let now = system_unix_seconds();
        let r = self.complete_enrollment_at(user_id, enrollment, code, now / PERIOD);
        proof {
            if r is Ok {
                self.states.lemma_map();
            }
        }
        r
    }

    /// Turn MFA off for a user: secret and codes are dropped. Whether it
    /// was on.
    pub fn disable(&mut self, user_id: &str) -> (was_enabled: bool)
        requires
            old(self).wf(),
        ensures
            final(self).wf(),
            was_enabled == (old(self).states().contains_key(user_id@) && old(self).states()[user_id@].enabled),
            old(self).states().contains_key(user_id@) ==> final(self).states() == old(self).states().insert(
                user_id@,
                MfaStateView {
                    user_id: old(self).states()[user_id@].user_id,
                    secret: None,
                    backup_codes: Seq::empty(),
                    used_backup_codes: Seq::empty(),
                    enabled: false,
                    enabled_at: None,
                },
            ),
            !old(self).states().contains_key(user_id@) ==> final(self).states() == old(self).states(),
    {
        match self.states.find(user_id) {
            Some(i) => {
                let was = self.states.at(i).enabled;
                let uid = self.states.at(i).user_id.clone();
                let s = MfaState {
                    user_id: uid,
                    secret: None,
                    backup_codes: Vec::new(),
                    used_backup_codes: Vec::new(),
                    enabled: false,
                    enabled_at: None,
                };
                assert(s@.backup_codes =~= Seq::<Seq<char>>::empty());
                assert(s@.used_backup_codes =~= Seq::<Seq<char>>::empty());
                self.states.set_at(i, s);
                was
            },
            None => false,
        }
    }

    /// Check an MFA code at TOTP time step `counter`: the TOTP code first,
    /// then the recovery codes, each of which is accepted once.
    pub fn verify_at(&mut self, user_id: &str, code: &str, counter: u64) -> (r: MfaVerifyResult)
        requires
            old(self).wf(),
            counter as int + crate::auth::totp::TOLERANCE <= u64::MAX,
        ensures
            final(self).wf(),
            verify_outcome(old(self).state_of(user_id@), code@, counter, r, final(self).state_of(user_id@)),
            forall|k: Seq<char>| k != user_id@ ==> #[trigger] final(self).state_of(k) == old(self).state_of(k),
            final(self).states().dom() == old(self).states().dom(),
    {
        proof {
            reveal_strlit("فشل تحميل السر");
        }
        let i = match self.states.find(user_id) {
            Some(i) => i,
            None => {
                return MfaVerifyResult::NotEnrolled;
            },
        };
        if !self.states.at(i).enabled {
            return MfaVerifyResult::NotEnrolled;
        }
        let secret = match &self.states.at(i).secret {
            Some(d) => match d.to_secret() {
                Ok(s) => s,
                Err(_) => {
                    return MfaVerifyResult::Error("فشل تحميل السر".to_owned());
                },
            },
            None => {
                return MfaVerifyResult::NotEnrolled;
            },
        };
        if verify_code_at(&secret, code, counter) {
            return MfaVerifyResult::Valid;
        }
        if contains_str(&self.states.at(i).backup_codes, code) {
            if contains_str(&self.states.at(i).used_backup_codes, code) {
                return MfaVerifyResult::AlreadyUsed;
            }
            let mut s = self.states.at(i).duplicate();
            let ghost before = s@;
            s.used_backup_codes.push(code.to_owned());
            assert(s@.used_backup_codes =~= before.used_backup_codes.push(code@));
            assert(s@ == MfaStateView { used_backup_codes: before.used_backup_codes.push(code@), ..before });
            self.states.set_at(i, s);
            proof {
                self.states.lemma_map();
            }
            return MfaVerifyResult::Valid;
        }
        MfaVerifyResult::Invalid
    }

    /// Check an MFA code now; see [`MfaManager::verify_at`].
    pub fn verify(&mut self, user_id: &str, code: &str) -> (r: MfaVerifyResult)
        requires
            old(self).wf(),
        ensures
            final(self).wf(),
            exists|now: u64|
                #[trigger] verify_outcome(
                    old(self).state_of(user_id@),
                    code@,
                    now / PERIOD,
                    r,
                    final(self).state_of(user_id@),
                ),
            forall|k: Seq<char>| k != user_id@ ==> #[trigger] final(self).state_of(k) == old(self).state_of(k),
    {
        let now = system_unix_seconds();
        self.verify_at(user_id, code, now / PERIOD)
    }

    /// Whether MFA is on for a user.
    pub fn is_enrolled(&self, user_id: &str) -> (b: bool)
        requires
            self.wf(),
        ensures
            b == (self.states().contains_key(user_id@) && self.states()[user_id@].enabled),
    {
        match self.states.find(user_id) {
            Some(i) => self.states.at(i).enabled,
            None => false,
        }
    }

    /// The MFA state of a user.
    pub fn get_state(&self, user_id: &str) -> (r: Option<MfaState>)
        requires
            self.wf(),
        ensures
            match r {
                Some(s) => self.states().contains_key(user_id@) && s@ == self.states()[user_id@],
                None => !self.states().contains_key(user_id@),
            },
    {
        self.states.get(user_id)
    }

    /// Number of users with MFA on.
    pub fn enrolled_count(&self) -> (n: usize)
        ensures
            n == self.table().seq().filter(|s: MfaStateView| s.enabled).len(),
    {
        let all = self.states.all();
        let ghost seq = self.table().seq();
        let ghost p = |s: MfaStateView| s.enabled;
        let mut n: usize = 0;
        let mut i: usize = 0;
        proof {
            crate::seq_facts::lemma_filter_take_zero(seq, p);
        }
        while i < all.len()
            invariant
                i <= all@.len(),
                models(all@) == seq,
                seq == self.table().seq(),
                p == (|s: MfaStateView| s.enabled),
                n == seq.take(i as int).filter(p).len(),
                n <= i,
            decreases all@.len() - i,
        {
            proof {
                crate::seq_facts::lemma_filter_take_step(seq, p, i as int);
            }
            assert(seq[i as int] == all@[i as int]@);
            if all[i].enabled {
                n = n + 1;
            }
            i = i + 1;
        }
        proof {
            crate::seq_facts::lemma_take_full(seq);
        }
        n
    }

    /// Replace a user's recovery codes with ten fresh ones, none used.
    pub fn regenerate_backup_codes(&mut self, user_id: &str) -> (r: Result<Vec<String>, String>)
        requires
            old(self).wf(),
        ensures
            final(self).wf(),
            match r {
                Ok(codes) => {
                    let o = old(self).states()[user_id@];
                    &&& old(self).states().contains_key(user_id@)
                    &&& o.enabled
                    &&& codes@.len() == BACKUP_CODE_COUNT
                    &&& all_backup_codes(codes@)
                    &&& final(self).states() == old(self).states().insert(
                        user_id@,
                        MfaStateView { backup_codes: texts(codes@), used_backup_codes: Seq::empty(), ..o },
                    )
                },
                Err(m) => final(self).states() == old(self).states() && if old(self).states().contains_key(user_id@) {
                    !old(self).states()[user_id@].enabled && m@ == "MFA غير مُفعّل"@
                } else {
                    m@ == "المستخدم غير موجود"@
                },
            },
    {
        let i = match self.states.find(user_id) {
            Some(i) => i,
            None => {
                return Err("المستخدم غير موجود".to_owned());
            },
        };
        if !self.states.at(i).enabled {
            return Err("MFA غير مُفعّل".to_owned());
        }
        let codes = generate_backup_codes(BACKUP_CODE_COUNT);
        let mut s = self.states.at(i).duplicate();
        let ghost before = s@;
        s.backup_codes = copy_strings(&codes);
        s.used_backup_codes = Vec::new();
        assert(s@ =~= MfaStateView { backup_codes: texts(codes@), used_backup_codes: Seq::empty(), ..before });
        self.states.set_at(i, s);
        Ok(codes)
    }
}


proof fn lemma_digits_len(v: nat, width: nat)
    ensures
        decimal_digits(v, width).len() == width,
    decreases width,
{
    if width > 0 {
        lemma_digits_len(v / 10, (width - 1) as nat);
    }
}

/// A recovery code is accepted once: for an enabled user whose secret
/// loads, a recovery code (which is no six-digit TOTP code) not used yet is
/// accepted and recorded as used by a first check, and refused as already
/// used by a second, whatever the time of either.
pub proof fn lemma_backup_code_once(
    s: MfaStateView,
    code: Seq<char>,
    first: u64,
    r1: MfaVerifyResult,
    mid: Option<MfaStateView>,
    second: u64,
    r2: MfaVerifyResult,
    after: Option<MfaStateView>,
)
    requires
        s.enabled,
        s.secret matches Some(h) && hex_decoded(h) is Some,
        s.backup_codes.contains(code),
        !s.used_backup_codes.contains(code),
        code.len() != 6,
        verify_outcome(Some(s), code, first, r1, mid),
        verify_outcome(mid, code, second, r2, after),
    ensures
        r1 == MfaVerifyResult::Valid,
        mid == Some(MfaStateView { used_backup_codes: s.used_backup_codes.push(code), ..s }),
        r2 == MfaVerifyResult::AlreadyUsed,
        after == mid,
{
    let secret = hex_decoded(s.secret->0)->0;
    assert forall|c: u64| !#[trigger] code_accepted(secret, code, c) by {
        assert forall|o: int| !#[trigger] accepted_at_offset(secret, code, c, o) by {
            lemma_digits_len((hotp_truncate(hmac_sha1_spec(secret, counter_bytes((c - o) as u64))) % 1000000) as nat, 6);
            lemma_digits_len((hotp_truncate(hmac_sha1_spec(secret, counter_bytes((c + o) as u64))) % 1000000) as nat, 6);
        }
    }
    let m = MfaStateView { used_backup_codes: s.used_backup_codes.push(code), ..s };
    assert(m.used_backup_codes.contains(code)) by {
        assert(m.used_backup_codes[m.used_backup_codes.len() - 1] == code);
    }
}

} // verus!
