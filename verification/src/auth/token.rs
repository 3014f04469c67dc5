//! Session tokens: Ed25519-signed, expiring, revocable claims.
//!
//! A token is its claims and an Ed25519 signature over their MessagePack
//! form; on the wire it is `claims || signature` in URL-safe Base64
//! without padding. Every user has a token version: issuing a token or
//! revoking bumps it, and only a token of the current version verifies.
//!
//! Turning claims into MessagePack bytes and back is left to the caller
//! (it is serde's work); here the bytes are signed, checked and framed.

use vstd::prelude::*;
use base64::Engine;
use ed25519_dalek::{Signer, Verifier};
use crate::auth::totp::{bits_value, byte_bit};
use crate::clock::{add_nanos, clamp_i64};
use crate::sys::random_bytes;
use crate::table::{Record, Table};

verus! {

/// Default token lifetime: one hour, in nanoseconds.
pub const DEFAULT_TOKEN_TTL_NANOS: u64 = 3_600_000_000_000;

/// Default refresh-token lifetime: one day, in nanoseconds.
pub const DEFAULT_REFRESH_TTL_NANOS: u64 = 86_400_000_000_000;

/// Length of an Ed25519 signature.
pub const SIGNATURE_LENGTH: usize = 64;

/// The public half of a signing key (`ed25519_dalek::VerifyingKey`).
#[verifier::external_type_specification]
#[verifier::external_body]
pub struct ExVerifyingKey(ed25519_dalek::VerifyingKey);

/// The Ed25519 signature (RFC 8032, deterministic) of a message under a
/// 32-byte secret key.
pub uninterp spec fn ed25519_signature(secret: Seq<u8>, msg: Seq<u8>) -> Seq<u8>;

/// Whether a signature over a message verifies under the public key of a
/// 32-byte secret key.
pub uninterp spec fn ed25519_verifies(secret: Seq<u8>, msg: Seq<u8>, sig: Seq<u8>) -> bool;

/// Sign a message (`SigningKey::from_bytes`, `Signer::sign`). The result is
/// named; RFC 8032 signatures are 64 bytes and verify under the key that
/// made them, as the crate documents.
#[verifier::external_body]
pub(crate) fn ed25519_sign(secret: &[u8; 32], msg: &[u8]) -> (sig: [u8; 64])
    ensures
        sig@ == ed25519_signature(secret@, msg@),
        ed25519_verifies(secret@, msg@, sig@),
{
    ed25519_dalek::SigningKey::from_bytes(secret).sign(msg).to_bytes()
}

/// Check a signature (`SigningKey::from_bytes`, `verifying_key`,
/// `Verifier::verify` with `Signature::from_bytes`).
#[verifier::external_body]
pub(crate) fn ed25519_check(secret: &[u8; 32], msg: &[u8], sig: &[u8; 64]) -> (ok: bool)
    ensures
        ok == ed25519_verifies(secret@, msg@, sig@),
{
    let key = ed25519_dalek::SigningKey::from_bytes(secret).verifying_key();
    key.verify(msg, &ed25519_dalek::Signature::from_bytes(sig)).is_ok()
}

/// The public key of a secret key (`SigningKey::verifying_key`).
#[verifier::external_body]
fn ed25519_public(secret: &[u8; 32]) -> (k: ed25519_dalek::VerifyingKey) {
    ed25519_dalek::SigningKey::from_bytes(secret).verifying_key()
}

/// Error of a token operation.
#[derive(Debug)]
pub enum TokenError {
    /// The signature is invalid or made with another key.
    InvalidSignature,
    /// The token has expired.
    Expired,
    /// The user has no token version (never issued, or unknown).
    Revoked,
    /// The token bytes are malformed.
    Malformed(String),
    /// The token is of an older version.
    VersionMismatch {
        /// Current version.
        expected: u64,
        /// The token's version.
        got: u64,
    },
}

/// The signed payload of a token.
#[derive(Debug, PartialEq, Eq)]
pub struct TokenClaims {
    /// Subject (user id).
    pub sub: String,
    /// Issue time (unix nanoseconds).
    pub iat: i64,
    /// Expiry (unix nanoseconds).
    pub exp: i64,
    /// Token version.
    pub ver: u64,
}

impl TokenClaims {
    /// An independent copy.
    pub fn duplicate(&self) -> (c: TokenClaims)
        ensures
            c.sub@ == self.sub@,
            c.iat == self.iat,
            c.exp == self.exp,
            c.ver == self.ver,
    {
        TokenClaims { sub: self.sub.clone(), iat: self.iat, exp: self.exp, ver: self.ver }
    }
}

/// A signed token.
#[derive(Debug, PartialEq, Eq)]
pub struct SessionToken {
    /// The claims.
    pub claims: TokenClaims,
    /// Ed25519 signature over the claims' MessagePack form.
    pub signature: [u8; 64],
}

/// The wire bytes of a token: claims bytes, then the signature.
pub fn frame(claims_bytes: &[u8], signature: &[u8; 64]) -> (out: Vec<u8>)
    ensures
        out@ == claims_bytes@ + signature@,
{
    let mut out: Vec<u8> = Vec::new();
    let mut i: usize = 0;
    while i < claims_bytes.len()
        invariant
            i <= claims_bytes@.len(),
            out@ == claims_bytes@.take(i as int),
        decreases claims_bytes@.len() - i,
    {
        out.push(claims_bytes[i]);
        assert(out@ =~= claims_bytes@.take(i + 1));
        i = i + 1;
    }
    let mut j: usize = 0;
    while j < 64
        invariant
            j <= 64,
            signature@.len() == 64,
            out@ == claims_bytes@ + signature@.take(j as int),
        decreases 64 - j,
    {
        out.push(signature[j]);
        assert(out@ =~= claims_bytes@ + signature@.take(j + 1));
        j = j + 1;
    }
    assert(claims_bytes@.take(claims_bytes@.len() as int) =~= claims_bytes@);
    assert(signature@.take(64) =~= signature@);
    out
}

/// Split wire bytes into claims bytes and the signature (its last 64
/// bytes).
pub fn split_frame(bytes: &[u8]) -> (r: Result<(Vec<u8>, [u8; 64]), TokenError>)
    ensures
        match r {
            Ok((c, s)) => bytes@.len() >= 64 && c@ + s@ == bytes@ && s@.len() == 64,
            Err(TokenError::Malformed(m)) => bytes@.len() < 64 && m@ == "too short"@,
            Err(_) => false,
        },
{
    if bytes.len() < 64 {
        return Err(TokenError::Malformed("too short".to_owned()));
    }
    let end = bytes.len() - 64;
    let mut claims: Vec<u8> = Vec::new();
    let mut i: usize = 0;
    while i < end
        invariant
            end == bytes@.len() - 64,
            i <= end,
            claims@ == bytes@.take(i as int),
        decreases end - i,
    {
        claims.push(bytes[i]);
        assert(claims@ =~= bytes@.take(i + 1));
        i = i + 1;
    }
    let mut sig = [0u8; 64];
    let bn = bytes.len();
    let mut j: usize = 0;
    while j < 64
        invariant
            end == bytes@.len() - 64,
            bn == bytes@.len(),
            j <= 64,
            sig@.len() == 64,
            forall|k: int| 0 <= k < j ==> sig@[k] == bytes@[end + k],
        decreases 64 - j,
    {
        sig.set(j, bytes[end + j]);
        j = j + 1;
    }
    assert(claims@ + sig@ =~= bytes@);
    Ok((claims, sig))
}

/// The URL-safe Base64 alphabet (RFC 4648, section 5).
pub open spec fn base64url_alphabet(v: int) -> char {
    if v < 26 {
        ((65 + v) as u8) as char
    } else if v < 52 {
        ((97 + v - 26) as u8) as char
    } else if v < 62 {
        ((48 + v - 52) as u8) as char
    } else if v == 62 {
        '-'
    } else {
        '_'
    }
}

/// URL-safe Base64 without padding: each 6 bits of the input, most
/// significant first, become one character, the last group filled with
/// zero bits.
pub open spec fn base64url_spec(data: Seq<u8>) -> Seq<char> {
    Seq::new(
        ((8 * data.len() + 5) / 6) as nat,
        |i: int| base64url_alphabet(bits_value(|k: int| byte_bit(data, k), 6 * i, 6)),
    )
}

/// URL-safe Base64 without padding
/// (`base64::engine::general_purpose::URL_SAFE_NO_PAD.encode`), as the
/// crate documents it.
#[verifier::external_body]
pub(crate) fn base64url_encode(data: &[u8]) -> (s: String)
    ensures
        s@ == base64url_spec(data@),
{
    base64::engine::general_purpose::URL_SAFE_NO_PAD.encode(data)
}

/// The bytes whose URL-safe Base64 form is `s`, if there are any (there is
/// at most one such byte string).
pub closed spec fn base64url_decoded(s: Seq<char>) -> Option<Seq<u8>> {
    if exists|b: Seq<u8>| #[trigger] base64url_spec(b) == s {
        Some(choose|b: Seq<u8>| #[trigger] base64url_spec(b) == s)
    } else {
        None
    }
}

/// URL-safe Base64 decoding without padding
/// (`base64::engine::general_purpose::URL_SAFE_NO_PAD.decode`). The crate
/// decodes canonically (no padding, zero trailing bits): it accepts exactly
/// the encodings of byte strings, and gives those bytes back. The error is
/// the crate's message.
#[verifier::external_body]
pub(crate) fn base64url_decode(s: &str) -> (r: Result<Vec<u8>, String>)
    ensures
        match r {
            Ok(b) => s@ == base64url_spec(b@),
            Err(_) => forall|b: Seq<u8>| #[trigger] base64url_spec(b) != s@,
        },
{
    base64::engine::general_purpose::URL_SAFE_NO_PAD.decode(s).map_err(|e| e.to_string())
}

/// The character code of each letter of the URL-safe alphabet.
proof fn lemma_base64url_code(v: int)
    requires
        0 <= v < 64,
    ensures
        base64url_alphabet(v) as int == if v < 26 {
            65 + v
        } else if v < 52 {
            71 + v
        } else if v < 62 {
            v - 4
        } else if v == 62 {
            45
        } else {
            95
        },
{
    if v < 26 {
        assert(((65 + v) as u8) as char as int == 65 + v);
    } else if v < 52 {
        assert(((97 + v - 26) as u8) as char as int == 71 + v);
    } else if v < 62 {
        assert(((48 + v - 52) as u8) as char as int == v - 4);
    }
}

/// Different byte strings have different URL-safe Base64 forms.
pub proof fn lemma_base64url_injective(d1: Seq<u8>, d2: Seq<u8>)
    requires
        base64url_spec(d1) == base64url_spec(d2),
    ensures
        d1 == d2,
{
    let n1 = d1.len() as int;
    let n2 = d2.len() as int;
    assert(base64url_spec(d1).len() == (8 * n1 + 5) / 6);
    assert(base64url_spec(d2).len() == (8 * n2 + 5) / 6);
    assert(n1 == n2) by (nonlinear_arith)
        requires
            (8 * n1 + 5) / 6 == (8 * n2 + 5) / 6,
            n1 >= 0,
            n2 >= 0,
    ;
    let g = ((8 * n1 + 5) / 6) as nat;
    assert(6 * g >= 8 * n1) by (nonlinear_arith)
        requires
            g == (8 * n1 + 5) / 6,
    ;
    assert forall|i: int| 0 <= i < g implies #[trigger] crate::auth::totp::bit_group(d1, 6, i)
        == crate::auth::totp::bit_group(d2, 6, i) by {
        crate::auth::totp::lemma_byte_bits_binary(d1, 6 * i, 6);
        crate::auth::totp::lemma_byte_bits_binary(d2, 6 * i, 6);
        crate::auth::totp::lemma_bits_value_range(|k: int| byte_bit(d1, k), 6 * i, 6);
        crate::auth::totp::lemma_bits_value_range(|k: int| byte_bit(d2, k), 6 * i, 6);
        vstd::arithmetic::power2::lemma2_to64();
        let v1 = crate::auth::totp::bit_group(d1, 6, i);
        let v2 = crate::auth::totp::bit_group(d2, 6, i);
        assert(0 <= v1 < 64 && 0 <= v2 < 64);
        assert(base64url_spec(d1)[i] == base64url_alphabet(v1));
        assert(base64url_spec(d2)[i] == base64url_alphabet(v2));
        assert(base64url_spec(d1)[i] == base64url_spec(d2)[i]);
        lemma_base64url_code(v1);
        lemma_base64url_code(v2);
    }
    crate::auth::totp::lemma_groups_determine_bytes(d1, d2, 6, g);
}

/// The URL-safe Base64 form of any bytes decodes to those bytes.
pub proof fn lemma_base64url_roundtrip(data: Seq<u8>)
    ensures
        base64url_decoded(base64url_spec(data)) == Some(data),
{
    let s = base64url_spec(data);
    assert(exists|b: Seq<u8>| #[trigger] base64url_spec(b) == s);
    let b = choose|b: Seq<u8>| #[trigger] base64url_spec(b) == s;
    lemma_base64url_injective(b, data);
}

/// Decoding, stated over `base64url_decoded`: the bytes when the text is the encoding of
/// some bytes, an error otherwise.
pub(crate) fn decode_base64url(s: &str) -> (r: Result<Vec<u8>, String>)
    ensures
        match r {
            Ok(b) => base64url_decoded(s@) == Some(b@),
            Err(_) => base64url_decoded(s@) is None,
        },
{
    let r = base64url_decode(s);
    proof {
        if r is Ok {
            lemma_base64url_roundtrip(r->Ok_0@);
        }
    }
    r
}

/// The text form of token wire bytes.
pub fn encode_token_bytes(bytes: &[u8]) -> (s: String)
    ensures
        s@ == base64url_spec(bytes@),
        base64url_decoded(s@) == Some(bytes@),
{
    let s = base64url_encode(bytes);
    proof {
        lemma_base64url_roundtrip(bytes@);
    }
    s
}

/// Token wire bytes from their text form, split into claims bytes and
/// signature.
pub fn decode_token_text(s: &str) -> (r: Result<(Vec<u8>, [u8; 64]), TokenError>)
    ensures
        match base64url_decoded(s@) {
            None => r matches Err(TokenError::Malformed(_)),
            Some(b) => if b.len() < 64 {
                r matches Err(TokenError::Malformed(m)) && m@ == "too short"@
            } else {
                r matches Ok((c, sig)) && c@ + sig@ == b && sig@.len() == 64
            },
        },
{
    match decode_base64url(s) {
        Ok(b) => split_frame(b.as_slice()),
        Err(m) => Err(TokenError::Malformed(m)),
    }
}

/// A user's current token version.
#[derive(Debug)]
pub struct VersionEntry {
    /// User id.
    pub user_id: String,
    /// Current version.
    pub version: u64,
}

impl Record for VersionEntry {
    type Model = (Seq<char>, u64);

    open spec fn model(&self) -> (Seq<char>, u64) {
        (self.user_id@, self.version)
    }

    open spec fn model_key(m: (Seq<char>, u64)) -> Seq<char> {
        m.0
    }

    fn key(&self) -> (k: &str) {
        self.user_id.as_str()
    }

    fn copy(&self) -> (r: VersionEntry) {
        VersionEntry { user_id: self.user_id.clone(), version: self.version }
    }
}

/// The version after a bump: one more than the current one, or 1.
pub open spec fn bumped(current: Option<u64>) -> u64 {
    match current {
        Some(v) => (v + 1) as u64,
        None => 1,
    }
}

/// Signs and checks tokens with the service's Ed25519 key and keeps each
/// user's token version.
pub struct TokenVerifier {
    secret: [u8; 32],
    versions: Table<VersionEntry>,
}

impl TokenVerifier {
    /// The secret key bytes.
    pub closed spec fn key(&self) -> Seq<u8> {
        self.secret@
    }

    /// The current token version of each user.
    pub closed spec fn versions(&self) -> Map<Seq<char>, (Seq<char>, u64)> {
        self.versions.map()
    }

    /// The current token version of a user, if any.
    pub open spec fn version_of(&self, user: Seq<char>) -> Option<u64> {
        if self.versions().contains_key(user) {
            Some(self.versions()[user].1)
        } else {
            None
        }
    }

    /// Well-formedness: one version per user.
    pub closed spec fn wf(&self) -> bool {
        self.versions.wf()
    }

    /// A verifier with a fresh random key and no versions.
    pub fn new() -> (v: TokenVerifier)
        ensures
            v.wf(),
            v.versions() == Map::<Seq<char>, (Seq<char>, u64)>::empty(),
    {
        let bytes = random_bytes(32);
        let mut secret = [0u8; 32];
        let mut i: usize = 0;
        while i < 32
            invariant
                i <= 32,
                bytes@.len() == 32,
                secret@.len() == 32,
            decreases 32 - i,
        {
            secret.set(i, bytes[i]);
            i = i + 1;
        }
        TokenVerifier { secret, versions: Table::new() }
    }

    /// The public key, for outside verifiers.
    pub fn public_key(&self) -> ed25519_dalek::VerifyingKey {
        ed25519_public(&self.secret)
    }

    fn bump(&mut self, user_id: &str) -> (v: u64)
        requires
            old(self).wf(),
            old(self).version_of(user_id@) matches Some(c) ==> c < u64::MAX,
        ensures
            final(self).wf(),
            v == bumped(old(self).version_of(user_id@)),
            final(self).versions() == old(self).versions().insert(user_id@, (user_id@, v)),
            final(self).key() == old(self).key(),
    {
        let next = match self.versions.find(user_id) {
            Some(i) => self.versions.at(i).version + 1,
            None => 1,
        };
        self.versions.upsert(VersionEntry { user_id: user_id.to_owned(), version: next });
        next
    }

    /// The claims of a new token for a user at time `now`, valid for `ttl`
    /// nanoseconds; the user's version is bumped, so earlier tokens stop
    /// verifying.
    pub fn issue_claims_at(&mut self, user_id: &str, ttl_nanos: u64, now: i64) -> (c: TokenClaims)
        requires
            old(self).wf(),
            old(self).version_of(user_id@) matches Some(v) ==> v < u64::MAX,
        ensures
            final(self).wf(),
            final(self).key() == old(self).key(),
            c.sub@ == user_id@,
            c.iat == now,
            c.exp == clamp_i64(now + clamp_i64(ttl_nanos as int)),
            c.ver == bumped(old(self).version_of(user_id@)),
            final(self).versions() == old(self).versions().insert(user_id@, (user_id@, c.ver)),
    {
        let ver = self.bump(user_id);
        let ttl: i64 = if ttl_nanos <= 9_223_372_036_854_775_807 {
            ttl_nanos as i64
        } else {
            9_223_372_036_854_775_807
        };
        TokenClaims { sub: user_id.to_owned(), iat: now, exp: add_nanos(now, ttl), ver }
    }

    /// The signature of claims bytes under the service key.
    pub fn sign(&self, claims_bytes: &[u8]) -> (sig: [u8; 64])
        ensures
            sig@ == ed25519_signature(self.key(), claims_bytes@),
            ed25519_verifies(self.key(), claims_bytes@, sig@),
    {
        ed25519_sign(&self.secret, claims_bytes)
    }

    /// Check a token whose claims have the MessagePack form `claims_bytes`
    /// at time `now`: the signature, then the expiry, then the version.
    pub fn verify_at(&self, token: &SessionToken, claims_bytes: &[u8], now: i64) -> (r: Result<TokenClaims, TokenError>)
        requires
            self.wf(),
        ensures
            (r is Ok) == token_accepted(*self, token.claims, claims_bytes@, token.signature@, now),
            if !ed25519_verifies(self.key(), claims_bytes@, token.signature@) {
                r matches Err(TokenError::InvalidSignature)
            } else if token.claims.exp < now {
                r matches Err(TokenError::Expired)
            } else {
                match self.version_of(token.claims.sub@) {
                    None => r matches Err(TokenError::Revoked),
                    Some(v) => if v != token.claims.ver {
                        r matches Err(TokenError::VersionMismatch { expected, got }) && expected == v && got
                            == token.claims.ver
                    } else {
                        r matches Ok(c) && c.sub@ == token.claims.sub@ && c.iat == token.claims.iat && c.exp
                            == token.claims.exp && c.ver == token.claims.ver
                    },
                }
            },
    {
        if !ed25519_check(&self.secret, claims_bytes, &token.signature) {
            return Err(TokenError::InvalidSignature);
        }
        if token.claims.exp < now {
            return Err(TokenError::Expired);
        }
        match self.versions.find(token.claims.sub.as_str()) {
            None => Err(TokenError::Revoked),
            Some(i) => {
                let v = self.versions.at(i).version;
                if v != token.claims.ver {
                    Err(TokenError::VersionMismatch { expected: v, got: token.claims.ver })
                } else {
                    Ok(token.claims.duplicate())
                }
            },
        }
    }

    /// Revoke every token of a user by bumping its version.
    pub fn revoke(&mut self, user_id: &str)
        requires
            old(self).wf(),
            old(self).version_of(user_id@) matches Some(v) ==> v < u64::MAX,
        ensures
            final(self).wf(),
            final(self).key() == old(self).key(),
            final(self).versions() == old(self).versions().insert(
                user_id@,
                (user_id@, bumped(old(self).version_of(user_id@))),
            ),
    {
        self.bump(user_id);
    }
}

/// Whether a token verifies at `now`: its signature checks under the
/// verifier's key, it has not expired, and its version is its subject's
/// current one.
pub open spec fn token_accepted(
    v: TokenVerifier,
    claims: TokenClaims,
    claims_bytes: Seq<u8>,
    signature: Seq<u8>,
    now: i64,
) -> bool {
    &&& ed25519_verifies(v.key(), claims_bytes, signature)
    &&& now <= claims.exp
    &&& v.version_of(claims.sub@) == Some(claims.ver)
}

/// A token just issued verifies until it expires: once `issue_claims_at`
/// has moved the verifier from `before` to `after` giving `claims`, and
/// `sign` has signed their bytes, the token is accepted at any time up to
/// its expiry.
pub proof fn lemma_issued_token_accepted(
    before: TokenVerifier,
    after: TokenVerifier,
    claims: TokenClaims,
    claims_bytes: Seq<u8>,
    signature: Seq<u8>,
    now: i64,
)
    requires
        after.key() == before.key(),
        after.versions() == before.versions().insert(claims.sub@, (claims.sub@, claims.ver)),
        ed25519_verifies(after.key(), claims_bytes, signature),
        now <= claims.exp,
    ensures
        token_accepted(after, claims, claims_bytes, signature, now),
{
}

/// Revocation refuses every earlier token: once `revoke` has moved the
/// verifier from `before` to `after` for a user, no token of that user
/// whose version is at most the user's version before is accepted, at any
/// time.
pub proof fn lemma_revoked_tokens_refused(
    before: TokenVerifier,
    after: TokenVerifier,
    claims: TokenClaims,
    claims_bytes: Seq<u8>,
    signature: Seq<u8>,
    now: i64,
)
    requires
        after.versions() == before.versions().insert(
            claims.sub@,
            (claims.sub@, bumped(before.version_of(claims.sub@))),
        ),
        before.version_of(claims.sub@) matches Some(w) && claims.ver <= w && w < u64::MAX,
    ensures
        !token_accepted(after, claims, claims_bytes, signature, now),
{
}

/// The text form of a token reads back as its claims bytes and signature:
/// when the text decodes to the wire bytes `claims_bytes + signature` (as
/// `encode_token_bytes` promises of its output), any split of them into a
/// part and 64 final bytes (as `decode_token_text` returns) is the claims
/// bytes and the signature.
pub proof fn lemma_token_text_roundtrip(
    text: Seq<char>,
    claims_bytes: Seq<u8>,
    signature: Seq<u8>,
    read_claims: Seq<u8>,
    read_signature: Seq<u8>,
)
    requires
        signature.len() == 64,
        base64url_decoded(text) == Some(claims_bytes + signature),
        base64url_decoded(text) == Some(read_claims + read_signature),
        read_signature.len() == 64,
    ensures
        read_claims == claims_bytes,
        read_signature == signature,
{
    let b = claims_bytes + signature;
    assert(read_claims + read_signature == b);
    assert((read_claims + read_signature).len() == b.len());
    assert(read_claims.len() == claims_bytes.len());
    assert(read_claims =~= b.take(claims_bytes.len() as int));
    assert(claims_bytes =~= b.take(claims_bytes.len() as int));
    assert(read_signature =~= b.skip(claims_bytes.len() as int));
    assert(signature =~= b.skip(claims_bytes.len() as int));
}

} // verus!
