//! What the MFA and audit routes do: each MFA action of a user is carried
//! out on the MFA manager and recorded in the audit log; an audit query's
//! parameters become a filter.

use vstd::prelude::*;
use crate::audit::category::{category_name, AuditCategory};
use crate::audit::entry::{opt_view, AuditEntry, AuditEntryView};
use crate::audit::filter::{AuditFilter, AuditSort};
use crate::audit::logger::{logged, AuditLogger};
use crate::auth::mfa::{verify_outcome, MfaEnrollment, MfaManager, MfaStateView, MfaVerifyResult};
use crate::auth::totp::{PERIOD, base32_bytes, base32_index, base32_skipped, invalid_base32_message, uppercase_spec, TotpSecret};
use crate::text::push_str;

verus! {

/// Body of `POST /api/auth/mfa/enroll/complete`.
#[derive(Debug)]
pub struct MfaEnrollCompleteBody {
    /// The code from the authenticator app.
    pub code: String,
    /// The secret handed out at the start, in Base32.
    pub secret: String,
    /// The recovery codes handed out at the start.
    pub backup_codes: Vec<String>,
}

/// Body of `POST /api/auth/mfa/verify`.
#[derive(Debug)]
pub struct MfaVerifyBody {
    /// The code to check.
    pub code: String,
}

/// Query of `GET /api/audit/entries`.
#[derive(Debug)]
pub struct AuditQueryParams {
    /// Exact actor.
    pub actor: Option<String>,
    /// Exact action.
    pub action: Option<String>,
    /// Category name; a name that denotes no category is ignored.
    pub category: Option<String>,
    /// Successes only (`true`) or failures only (`false`).
    pub success: Option<bool>,
    /// Number of results.
    pub limit: Option<usize>,
    /// Number of results to skip.
    pub offset: Option<usize>,
    /// Oldest first when `true`.
    pub oldest_first: Option<bool>,
}

/// The audit record of a user's own MFA action.
pub open spec fn mfa_record(e: AuditEntryView, user: Seq<char>, action: Seq<char>, success: bool) -> bool {
    &&& e.actor == user
    &&& e.action == action
    &&& e.target == user
    &&& e.category == AuditCategory::Auth
    &&& e.success == success
}

/// Whether the log went from `before` to `after` by recording the user's
/// MFA action.
pub open spec fn recorded(
    before: Seq<AuditEntryView>,
    after: Seq<AuditEntryView>,
    capacity: nat,
    user: Seq<char>,
    action: Seq<char>,
    success: bool,
) -> bool {
    exists|e: AuditEntryView| #[trigger] mfa_record(e, user, action, success) && after == logged(before, e, capacity)
}

fn record(audit: &mut AuditLogger, user_id: &str, action: &str, success: bool)
    requires
        old(audit).wf(),
    ensures
        final(audit).wf(),
        final(audit).capacity() == old(audit).capacity(),
        recorded(old(audit).spec_entries(), final(audit).spec_entries(), old(audit).capacity(), user_id@, action@, success),
{
    let e = AuditEntry::new(user_id, action, user_id).with_category(AuditCategory::Auth).with_success(success);
    let ghost ev = e@;
    audit.log(e);
    assert(mfa_record(ev, user_id@, action@, success));
}

/// Start MFA enrolment for a user (`POST /api/auth/mfa/enroll/begin`):
/// the enrolment to hand out, recorded as `mfa.enroll.begin`. The MFA
/// state does not change.
pub fn mfa_enroll_begin(mfa: &MfaManager, audit: &mut AuditLogger, user_id: &str) -> (e: MfaEnrollment)
    requires
        old(audit).wf(),
    ensures
        final(audit).wf(),
        final(audit).capacity() == old(audit).capacity(),
        recorded(
            old(audit).spec_entries(),
            final(audit).spec_entries(),
            old(audit).capacity(),
            user_id@,
            "mfa.enroll.begin"@,
            true,
        ),
        e.secret.bytes@.len() == 20,
        e.backup_codes@.len() == crate::auth::mfa::BACKUP_CODE_COUNT,
{
    let e = mfa.begin_enrollment(user_id);
    record(audit, user_id, "mfa.enroll.begin", true);
    e
}

/// The secret bytes that a Base32 text denotes, if every character that
/// counts is a Base32 digit.
pub open spec fn base32_secret(s: Seq<char>) -> Option<Seq<u8>> {
    let cleaned = uppercase_spec(s).filter(|c: char| !base32_skipped(c));
    if forall|i: int| 0 <= i < cleaned.len() ==> base32_index(cleaned[i]) is Some {
        Some(base32_bytes(cleaned.map_values(|c: char| base32_index(c)->0 as u8)))
    } else {
        None
    }
}

/// Finish MFA enrolment (`POST /api/auth/mfa/enroll/complete`). A secret
/// that is not Base32 is refused with `سر غير صالح: ` and the reason, and
/// nothing changes. Otherwise the outcome is that of
/// [`MfaManager::complete_enrollment`] with this secret and these recovery
/// codes; success is recorded as `mfa.enroll.complete`, a refusal is not
/// recorded.
pub fn mfa_enroll_complete(
    mfa: &mut MfaManager,
    audit: &mut AuditLogger,
    user_id: &str,
    body: &MfaEnrollCompleteBody,
) -> (r: Result<(), String>)
    requires
        old(mfa).wf(),
        old(audit).wf(),
    ensures
        final(mfa).wf(),
        final(audit).wf(),
        final(audit).capacity() == old(audit).capacity(),
        match base32_secret(body.secret@) {
            None => {
                &&& r matches Err(m) && m@.len() > "سر غير صالح: "@.len()
                    && m@.subrange(0, "سر غير صالح: "@.len() as int) == "سر غير صالح: "@
                &&& final(mfa).states() == old(mfa).states()
                &&& final(audit).spec_entries() == old(audit).spec_entries()
            },
            Some(secret) => match r {
                Ok(()) => {
                    &&& exists|now: u64| #[trigger] crate::auth::totp::code_accepted(secret, body.code@, now / PERIOD)
                    &&& final(mfa).states().contains_key(user_id@)
                    &&& final(mfa).states()[user_id@].enabled
                    &&& final(mfa).states()[user_id@].secret == Some(crate::auth::sso::codec::hex_lower(secret))
                    &&& recorded(
                        old(audit).spec_entries(),
                        final(audit).spec_entries(),
                        old(audit).capacity(),
                        user_id@,
                        "mfa.enroll.complete"@,
                        true,
                    )
                },
                Err(_) => final(mfa).states() == old(mfa).states() && final(audit).spec_entries()
                    == old(audit).spec_entries(),
            },
        },
{
    proof {
        reveal_strlit("سر غير صالح: ");
    }
    let secret = match TotpSecret::from_base32(body.secret.as_str()) {
        Ok(s) => s,
        Err(e) => {
            let mut m = "سر غير صالح: ".to_owned();
            push_str(&mut m, e.as_str());
            proof {
                let cleaned = uppercase_spec(body.secret@).filter(|c: char| !base32_skipped(c));
                let i = choose|i: int|
                    0 <= i < cleaned.len() && base32_index(cleaned[i]) is None && (forall|j: int|
                        0 <= j < i ==> base32_index(cleaned[j]) is Some) && e@ == invalid_base32_message(
                        cleaned[i],
                    );
                assert(!(base32_index(cleaned[i]) is Some));
                assert(base32_secret(body.secret@) is None);
                assert(m@.subrange(0, "سر غير صالح: "@.len() as int) =~= "سر غير صالح: "@);
            }
            return Err(m);
        },
    };
    let enrollment = MfaEnrollment {
        secret,
        otpauth_url: String::new(),
        backup_codes: crate::text::copy_strings(&body.backup_codes),
    };
    match mfa.complete_enrollment(user_id, &enrollment, body.code.as_str()) {
        Ok(()) => {
            record(audit, user_id, "mfa.enroll.complete", true);
            Ok(())
        },
        Err(e) => Err(e),
    }
}

/// The reply to an MFA check: whether the code was accepted, and why.
pub open spec fn verify_reply(r: MfaVerifyResult) -> (bool, Seq<char>) {
    match r {
        MfaVerifyResult::Valid => (true, "صالح"@),
        MfaVerifyResult::Invalid => (false, "رمز غير صالح"@),
        MfaVerifyResult::NotEnrolled => (false, "MFA غير مُفعّل"@),
        MfaVerifyResult::AlreadyUsed => (false, "كود الاسترداد مستخدم بالفعل"@),
        MfaVerifyResult::Error(e) => (false, e@),
    }
}

/// The reply to an MFA check.
pub fn mfa_verify_reply(r: MfaVerifyResult) -> (reply: (bool, String))
    ensures
        reply.0 == verify_reply(r).0,
        reply.1@ == verify_reply(r).1,
{
    match r {
        MfaVerifyResult::Valid => (true, "صالح".to_owned()),
        MfaVerifyResult::Invalid => (false, "رمز غير صالح".to_owned()),
        MfaVerifyResult::NotEnrolled => (false, "MFA غير مُفعّل".to_owned()),
        MfaVerifyResult::AlreadyUsed => (false, "كود الاسترداد مستخدم بالفعل".to_owned()),
        MfaVerifyResult::Error(e) => (false, e),
    }
}

/// Check a user's MFA code (`POST /api/auth/mfa/verify`): the code is
/// checked as [`MfaManager::verify`] does, the reply says whether it was
/// accepted and why, and the check is recorded as `mfa.verify` with its
/// outcome.
pub fn mfa_verify(mfa: &mut MfaManager, audit: &mut AuditLogger, user_id: &str, body: &MfaVerifyBody) -> (reply: (
    bool,
    String,
))
    requires
        old(mfa).wf(),
        old(audit).wf(),
    ensures
        final(mfa).wf(),
        final(audit).wf(),
        final(audit).capacity() == old(audit).capacity(),
        exists|now: u64, r: MfaVerifyResult|
            #[trigger] verify_outcome(
                old(mfa).state_of(user_id@),
                body.code@,
                now / PERIOD,
                r,
                final(mfa).state_of(user_id@),
            ) && reply.0 == verify_reply(r).0 && reply.1@ == verify_reply(r).1,
        forall|k: Seq<char>| k != user_id@ ==> #[trigger] final(mfa).state_of(k) == old(mfa).state_of(k),
        recorded(
            old(audit).spec_entries(),
            final(audit).spec_entries(),
            old(audit).capacity(),
            user_id@,
            "mfa.verify"@,
            reply.0,
        ),
{
    let r = mfa.verify(user_id, body.code.as_str());
    let ghost rv = r;
    let reply = mfa_verify_reply(r);
    record(audit, user_id, "mfa.verify", reply.0);
    reply
}

/// Turn a user's MFA off (`POST /api/auth/mfa/disable`): whether it was
/// on, as [`MfaManager::disable`] says; recorded as `mfa.disable`,
/// successful when it was on.
pub fn mfa_disable(mfa: &mut MfaManager, audit: &mut AuditLogger, user_id: &str) -> (was_enabled: bool)
    requires
        old(mfa).wf(),
        old(audit).wf(),
    ensures
        final(mfa).wf(),
        final(audit).wf(),
        final(audit).capacity() == old(audit).capacity(),
        was_enabled == (old(mfa).states().contains_key(user_id@) && old(mfa).states()[user_id@].enabled),
        old(mfa).states().contains_key(user_id@) ==> final(mfa).states() == old(mfa).states().insert(
            user_id@,
            MfaStateView {
                user_id: old(mfa).states()[user_id@].user_id,
                secret: None,
                backup_codes: Seq::empty(),
                used_backup_codes: Seq::empty(),
                enabled: false,
                enabled_at: None,
            },
        ),
        !old(mfa).states().contains_key(user_id@) ==> final(mfa).states() == old(mfa).states(),
        recorded(
            old(audit).spec_entries(),
            final(audit).spec_entries(),
            old(audit).capacity(),
            user_id@,
            "mfa.disable"@,
            was_enabled,
        ),
{
    let was = mfa.disable(user_id);
    record(audit, user_id, "mfa.disable", was);
    was
}

/// Replace a user's recovery codes
/// (`POST /api/auth/mfa/backup-codes/regenerate`): the outcome of
/// [`MfaManager::regenerate_backup_codes`]; success is recorded as
/// `mfa.backup_codes.regenerate`, a refusal is not recorded.
pub fn mfa_regenerate_backup_codes(mfa: &mut MfaManager, audit: &mut AuditLogger, user_id: &str) -> (r: Result<
    Vec<String>,
    String,
>)
    requires
        old(mfa).wf(),
        old(audit).wf(),
    ensures
        final(mfa).wf(),
        final(audit).wf(),
        final(audit).capacity() == old(audit).capacity(),
        match r {
            Ok(codes) => {
                let o = old(mfa).states()[user_id@];
                &&& old(mfa).states().contains_key(user_id@)
                &&& o.enabled
                &&& codes@.len() == crate::auth::mfa::BACKUP_CODE_COUNT
                &&& final(mfa).states() == old(mfa).states().insert(
                    user_id@,
                    MfaStateView { backup_codes: crate::text::texts(codes@), used_backup_codes: Seq::empty(), ..o },
                )
                &&& recorded(
                    old(audit).spec_entries(),
                    final(audit).spec_entries(),
                    old(audit).capacity(),
                    user_id@,
                    "mfa.backup_codes.regenerate"@,
                    true,
                )
            },
            Err(_) => {
                &&& !(old(mfa).states().contains_key(user_id@) && old(mfa).states()[user_id@].enabled)
                &&& final(mfa).states() == old(mfa).states()
                &&& final(audit).spec_entries() == old(audit).spec_entries()
            },
        },
{
    match mfa.regenerate_backup_codes(user_id) {
        Ok(codes) => {
            record(audit, user_id, "mfa.backup_codes.regenerate", true);
            Ok(codes)
        },
        Err(e) => Err(e),
    }
}

/// The category a query names: the one whose name it is, if any.
pub open spec fn named_category(name: Option<String>, c: Option<AuditCategory>) -> bool {
    match name {
        None => c is None,
        Some(s) => match c {
            Some(k) => category_name(k) == s@,
            None => forall|k: AuditCategory| category_name(k) != s@,
        },
    }
}

/// The audit filter of a query (`GET /api/audit/entries`): the actor,
/// action, limit and offset given; the category named, ignored when the
/// name denotes none; successes or failures only as asked; oldest first
/// when asked, newest first otherwise.
pub fn audit_filter_of(params: &AuditQueryParams) -> (f: AuditFilter)
    ensures
        opt_view(f.actor) == opt_view(params.actor),
        opt_view(f.action) == opt_view(params.action),
        f.target is None,
        named_category(params.category, f.category),
        f.success_only == params.success,
        f.from_timestamp is None,
        f.to_timestamp is None,
        f.limit == params.limit,
        f.offset == params.offset,
        f.sort == (if params.oldest_first == Some(true) {
            AuditSort::OldestFirst
        } else {
            AuditSort::NewestFirst
        }),
{
    let mut f = AuditFilter::new();
    match &params.actor {
        Some(a) => {
            f = f.with_actor(a.as_str());
        },
        None => {},
    }
    match &params.action {
        Some(a) => {
            f = f.with_action(a.as_str());
        },
        None => {},
    }
    match &params.category {
        Some(c) => match AuditCategory::parse(c.as_str()) {
            Ok(cat) => {
                f = f.with_category(cat);
            },
            Err(_) => {},
        },
        None => {},
    }
    match params.limit {
        Some(l) => {
            f = f.with_limit(l);
        },
        None => {},
    }
    match params.offset {
        Some(o) => {
            f = f.with_offset(o);
        },
        None => {},
    }
    match params.success {
        Some(true) => {
            f = f.success_only();
        },
        Some(false) => {
            f = f.failures_only();
        },
        None => {},
    }
    match params.oldest_first {
        Some(true) => {
            f = f.with_sort(AuditSort::OldestFirst);
        },
        _ => {},
    }
    f
}

} // verus!
