//! Time-based one-time passwords (RFC 6238) and the Base32 text form of
//! their shared secrets (RFC 4648, without padding).
//!
//! TOTP = HOTP(secret, floor(unix_time / 30)); HOTP = HMAC-SHA1(secret,
//! counter) -> dynamic truncation -> mod 10^6.

use hmac::{Hmac, Mac};
use sha1::Sha1;
use vstd::prelude::*;
use vstd::string::*;
use crate::sys::{random_below, random_bytes, system_unix_seconds};
use crate::text::{decimal_digits, push_char, push_str, zero_padded};

verus! {

/// Number of digits of a code.
pub const DIGITS: u32 = 6;

/// Length of a time step in seconds.
pub const PERIOD: u64 = 30;

/// Number of time steps of tolerated clock drift on either side.
pub const TOLERANCE: u64 = 1;

/// The result of HMAC-SHA1 over `msg` with key `key`.
pub uninterp spec fn hmac_sha1_spec(key: Seq<u8>, msg: Seq<u8>) -> Seq<u8>;

/// HMAC-SHA1 of `msg` under `key` (`hmac::Hmac::<sha1::Sha1>`:
/// `new_from_slice`, `update`, `finalize`). HMAC accepts keys of any
/// length, so the construction cannot fail; the result is the 20-byte
/// SHA-1 output size.
#[verifier::external_body]
fn hmac_sha1(key: &[u8], msg: &[u8]) -> (d: Vec<u8>)
    ensures
        d@ == hmac_sha1_spec(key@, msg@),
        d@.len() == 20,
{
    let mut mac = Hmac::<Sha1>::new_from_slice(key).expect("HMAC accepts any key length");
    mac.update(msg);
    mac.finalize().into_bytes().to_vec()
}

/// The uppercase form of a string.
pub uninterp spec fn uppercase_spec(s: Seq<char>) -> Seq<char>;

/// The uppercase form of an ASCII character: `a`..`z` become `A`..`Z`, the
/// others stay.
pub open spec fn ascii_upper(c: char) -> char {
    if 'a' <= c && c <= 'z' {
        ((c as u32) - 32) as char
    } else {
        c
    }
}

/// Whether, when `s` is ASCII text, its uppercase form is the ASCII
/// uppercase form.
pub open spec fn uppercase_known(s: Seq<char>) -> bool {
    (forall|i: int| 0 <= i < s.len() ==> (#[trigger] s[i] as u32) < 128) ==> uppercase_spec(s) == s.map_values(
        |c: char| ascii_upper(c),
    )
}

/// `str::to_uppercase`: the Unicode uppercase form of `s`; a function of
/// the text alone, named rather than written out. On ASCII text it is the
/// ASCII uppercase form, character by character.
#[verifier::external_body]
fn to_uppercase(s: &str) -> (u: String)
    ensures
        u@ == uppercase_spec(s@),
        (forall|i: int| 0 <= i < s@.len() ==> (#[trigger] s@[i] as u32) < 128) ==> u@ == s@.map_values(
            |c: char| ascii_upper(c),
        ),
{
    s.to_uppercase()
}

/// Whether a character is alphabetic or numeric in the Unicode sense.
pub uninterp spec fn is_alphanumeric_spec(c: char) -> bool;

/// `char::is_alphanumeric`, named rather than written out (it follows the
/// Unicode tables); among ASCII characters it holds of the letters and the
/// digits.
#[verifier::external_body]
fn is_alphanumeric(c: char) -> (b: bool)
    ensures
        b == is_alphanumeric_spec(c),
        (c as u32) < 128 ==> b == (('a' <= c && c <= 'z') || ('A' <= c && c <= 'Z') || ('0' <= c && c <= '9')),
{
    c.is_alphanumeric()
}

/// The UTF-8 encoding of one character (`char::encode_utf8`).
#[verifier::external_body]
fn char_utf8(c: char) -> (b: Vec<u8>)
    ensures
        b@ == vstd::utf8::encode_scalar(c as u32),
{
    let mut buf = [0u8; 4];
    c.encode_utf8(&mut buf).as_bytes().to_vec()
}

/// A TOTP shared secret.
#[derive(Clone, Debug)]
pub struct TotpSecret {
    /// The raw secret bytes.
    pub bytes: Vec<u8>,
}

// ---------------------------------------------------------------- Base32

/// The Base32 alphabet: `A`..`Z` then `2`..`7`.
pub open spec fn base32_alphabet(v: int) -> char {
    if v < 26 {
        ((65 + v) as u8) as char
    } else {
        ((50 + v - 26) as u8) as char
    }
}

/// The position of a character in the Base32 alphabet, if it is in it.
pub open spec fn base32_index(c: char) -> Option<int> {
    if 'A' <= c && c <= 'Z' {
        Some(c as int - 65)
    } else if '2' <= c && c <= '7' {
        Some(c as int - 50 + 26)
    } else {
        None
    }
}

/// Bit `k` (most significant first) of a byte string; 0 past its end.
pub open spec fn byte_bit(data: Seq<u8>, k: int) -> int {
    if 0 <= k < 8 * data.len() {
        ((data[k / 8] as int) / vstd::arithmetic::power2::pow2((7 - k % 8) as nat) as int) % 2
    } else {
        0
    }
}

/// Bit `k` (most significant first) of a string of 5-bit values.
pub open spec fn quint_bit(vals: Seq<u8>, k: int) -> int {
    if 0 <= k < 5 * vals.len() {
        ((vals[k / 5] as int) / vstd::arithmetic::power2::pow2((4 - k % 5) as nat) as int) % 2
    } else {
        0
    }
}

/// The number whose bits, most significant first, are `count` bits of
/// `bit` starting at `start`.
pub open spec fn bits_value(bit: spec_fn(int) -> int, start: int, count: nat) -> int
    decreases count,
{
    if count == 0 {
        0
    } else {
        2 * bits_value(bit, start, (count - 1) as nat) + bit(start + count - 1)
    }
}

/// Base32 encoding (RFC 4648, no padding): each 5 bits of the input, most
/// significant first, become one character; the last group is filled with
/// zero bits.
pub open spec fn base32_encode_spec(data: Seq<u8>) -> Seq<char> {
    Seq::new(
        ((8 * data.len() + 4) / 5) as nat,
        |i: int| base32_alphabet(bits_value(|k: int| byte_bit(data, k), 5 * i, 5)),
    )
}

/// Characters that Base32 decoding skips: white space and `=` padding.
pub open spec fn base32_skipped(c: char) -> bool {
    crate::text::is_white_space(c) || c == '='
}

/// The decoded bytes of a string of 5-bit values: each full 8 bits, most
/// significant first, become one byte; leftover bits are dropped.
pub open spec fn base32_bytes(vals: Seq<u8>) -> Seq<u8> {
    Seq::new(
        (5 * vals.len() / 8) as nat,
        |j: int| bits_value(|k: int| quint_bit(vals, k), 8 * j, 8) as u8,
    )
}

/// Whether `bit` gives 0 or 1 on the `count` positions from `start`.
pub open spec fn binary_on(bit: spec_fn(int) -> int, start: int, count: nat) -> bool {
    forall|t: int| 0 <= t < count ==> 0 <= #[trigger] bit(start + t) <= 1
}

proof fn lemma_binary_on_shorter(bit: spec_fn(int) -> int, start: int, count: nat, c: nat)
    requires
        binary_on(bit, start, count),
        c <= count,
    ensures
        binary_on(bit, start, c),
{
    assert forall|t: int| 0 <= t < c implies 0 <= #[trigger] bit(start + t) <= 1 by {
        assert(0 <= t < count);
    }
}

pub(crate) proof fn lemma_bits_value_range(bit: spec_fn(int) -> int, start: int, count: nat)
    requires
        binary_on(bit, start, count),
    ensures
        0 <= bits_value(bit, start, count) < vstd::arithmetic::power2::pow2(count),
    decreases count,
{
    if count > 0 {
        vstd::arithmetic::power2::lemma_pow2_unfold(count);
        lemma_binary_on_shorter(bit, start, count, (count - 1) as nat);
        lemma_bits_value_range(bit, start, (count - 1) as nat);
        assert(0 <= bit(start + (count - 1)) <= 1);
    } else {
        vstd::arithmetic::power2::lemma2_to64();
    }
}

/// Dropping the last `count - u` bits of a value leaves the value of its
/// first `u` bits.
proof fn lemma_bits_value_prefix(bit: spec_fn(int) -> int, start: int, count: nat, u: nat)
    requires
        binary_on(bit, start, count),
        u <= count,
    ensures
        bits_value(bit, start, count) / vstd::arithmetic::power2::pow2((count - u) as nat) as int
            == bits_value(bit, start, u),
    decreases count,
{
    if u == count {
        vstd::arithmetic::power2::lemma2_to64();
        assert(vstd::arithmetic::power2::pow2(0) == 1);
        let x = bits_value(bit, start, count);
        assert(x / 1 == x);
    } else {
        let c1 = (count - 1) as nat;
        lemma_binary_on_shorter(bit, start, count, c1);
        lemma_bits_value_prefix(bit, start, c1, u);
        lemma_bits_value_range(bit, start, c1);
        let x = bits_value(bit, start, c1);
        let b = bit(start + c1);
        assert(0 <= b <= 1);
        let p = vstd::arithmetic::power2::pow2((c1 - u) as nat) as int;
        vstd::arithmetic::power2::lemma_pow2_unfold((count - u) as nat);
        vstd::arithmetic::power2::lemma_pow2_pos((c1 - u) as nat);
        assert(((count - u) as nat - 1) as nat == (c1 - u) as nat);
        assert(vstd::arithmetic::power2::pow2((count - u) as nat) as int == 2 * p);
        assert(bits_value(bit, start, count) == 2 * x + b);
        vstd::arithmetic::div_mod::lemma_div_denominator(2 * x + b, 2, p);
        assert((2 * x + b) / 2 == x) by (nonlinear_arith)
            requires
                0 <= b <= 1,
        ;
        assert(x / p == bits_value(bit, start, u));
        assert((2 * x + b) / (2 * p) == x / p);
    }
}

/// Bit `t` of a `count`-bit value, most significant first, is `bit(start + t)`.
pub(crate) proof fn lemma_bits_value_bit(bit: spec_fn(int) -> int, start: int, count: nat, t: int)
    requires
        binary_on(bit, start, count),
        0 <= t < count,
    ensures
        (bits_value(bit, start, count) / vstd::arithmetic::power2::pow2((count - 1 - t) as nat) as int) % 2
            == bit(start + t),
{
    lemma_bits_value_prefix(bit, start, count, (t + 1) as nat);
    assert((count - (t + 1) as nat) as nat == (count - 1 - t) as nat);
    let x = bits_value(bit, start, t as nat);
    assert(bits_value(bit, start, (t + 1) as nat) == 2 * x + bit(start + t));
    assert(0 <= bit(start + t) <= 1);
    assert((2 * x + bit(start + t)) % 2 == bit(start + t)) by (nonlinear_arith)
        requires
            0 <= bit(start + t) <= 1,
    ;
}

/// The bits of `x < 2^c`, most significant first, make `x` again.
proof fn lemma_bits_value_of(bit: spec_fn(int) -> int, start: int, c: nat, x: int, u: nat)
    requires
        0 <= x < vstd::arithmetic::power2::pow2(c),
        u <= c,
        forall|t: int| 0 <= t < c ==> #[trigger] bit(start + t)
            == (x / vstd::arithmetic::power2::pow2((c - 1 - t) as nat) as int) % 2,
    ensures
        bits_value(bit, start, u) == x / vstd::arithmetic::power2::pow2((c - u) as nat) as int,
    decreases u,
{
    if u == 0 {
        vstd::arithmetic::div_mod::lemma_basic_div(x, vstd::arithmetic::power2::pow2(c) as int);
    } else {
        let u1 = (u - 1) as nat;
        lemma_bits_value_of(bit, start, c, x, u1);
        let q = vstd::arithmetic::power2::pow2((c - u) as nat) as int;
        vstd::arithmetic::power2::lemma_pow2_pos((c - u) as nat);
        vstd::arithmetic::power2::lemma_pow2_unfold((c - u1) as nat);
        assert(((c - u1) as nat - 1) as nat == (c - u) as nat);
        assert(vstd::arithmetic::power2::pow2((c - u1) as nat) as int == 2 * q);
        let y = x / q;
        assert((c - 1 - u1) as nat == (c - u) as nat);
        assert(bit(start + u1) == y % 2);
        vstd::arithmetic::div_mod::lemma_div_denominator(x, q, 2);
        assert(q * 2 == 2 * q);
        assert(x / (2 * q) == y / 2);
        vstd::arithmetic::div_mod::lemma_fundamental_div_mod(y, 2);
        assert(bits_value(bit, start, u) == 2 * (y / 2) + y % 2);
    }
}

pub(crate) proof fn lemma_byte_bits_binary(data: Seq<u8>, start: int, count: nat)
    ensures
        binary_on(|k: int| byte_bit(data, k), start, count),
{
    let bb = |k: int| byte_bit(data, k);
    assert forall|t: int| 0 <= t < count implies 0 <= #[trigger] bb(start + t) <= 1 by {
        let k = start + t;
        if 0 <= k < 8 * data.len() {
            let p = vstd::arithmetic::power2::pow2((7 - k % 8) as nat) as int;
            vstd::arithmetic::power2::lemma_pow2_pos((7 - k % 8) as nat);
            assert(0 <= (data[k / 8] as int) / p) by (nonlinear_arith)
                requires
                    p > 0,
                    0 <= data[k / 8] as int,
            ;
        }
    }
}

/// A character of a Base32 encoding: a letter `A`..`Z` or a digit `2`..`7`,
/// at the position of its 5 bits in the alphabet.
proof fn lemma_base32_char(data: Seq<u8>, i: int)
    requires
        0 <= i < base32_encode_spec(data).len(),
    ensures
        ({
            let c = base32_encode_spec(data)[i];
            let v = bits_value(|k: int| byte_bit(data, k), 5 * i, 5);
            &&& 0 <= v < 32
            &&& base32_index(c) == Some(v)
            &&& (c as u32) < 128 && !base32_skipped(c) && !('a' <= c && c <= 'z')
        }),
{
    let bb = |k: int| byte_bit(data, k);
    lemma_byte_bits_binary(data, 5 * i, 5);
    lemma_bits_value_range(bb, 5 * i, 5);
    vstd::arithmetic::power2::lemma2_to64();
    let v = bits_value(bb, 5 * i, 5);
    if v < 26 {
        assert(((65 + v) as u8) as char as int == 65 + v);
    } else {
        assert(((50 + v - 26) as u8) as char as int == 50 + v - 26);
    }
}

/// Byte `j` of the decoding of the alphabet positions of a Base32 encoding
/// is byte `j` of the data.
proof fn lemma_base32_byte(data: Seq<u8>, vals: Seq<u8>, j: int)
    requires
        vals.len() == (8 * data.len() + 4) / 5,
        forall|i: int| 0 <= i < vals.len() ==> #[trigger] vals[i] as int == bits_value(
            |k: int| byte_bit(data, k),
            5 * i,
            5,
        ),
        0 <= j < data.len(),
    ensures
        bits_value(|k: int| quint_bit(vals, k), 8 * j, 8) == data[j] as int,
{
    let bb = |k: int| byte_bit(data, k);
    let qb = |k: int| quint_bit(vals, k);
    let n = data.len();
    let m = vals.len();
    vstd::arithmetic::power2::lemma2_to64();
    assert forall|t: int| 0 <= t < 8 implies #[trigger] qb(8 * j + t)
        == (data[j] as int / vstd::arithmetic::power2::pow2((8 - 1 - t) as nat) as int) % 2 by {
        let k = 8 * j + t;
        assert(k / 8 == j && k % 8 == t) by (nonlinear_arith)
            requires
                k == 8 * j + t,
                0 <= t < 8,
        ;
        assert(k < 5 * m) by (nonlinear_arith)
            requires
                k == 8 * j + t,
                0 <= t < 8,
                j < n,
                m == (8 * n + 4) / 5,
        ;
        let i = k / 5;
        assert(0 <= i < m && 5 * i + k % 5 == k && 0 <= k % 5 < 5) by (nonlinear_arith)
            requires
                0 <= k < 5 * m,
                i == k / 5,
        ;
        lemma_byte_bits_binary(data, 5 * i, 5);
        lemma_bits_value_bit(bb, 5 * i, 5, k % 5);
        assert((5 - 1 - k % 5) as nat == (4 - k % 5) as nat);
        assert(vals[i] as int == bits_value(bb, 5 * i, 5));
        assert(qb(k) == ((vals[k / 5] as int) / vstd::arithmetic::power2::pow2((4 - k % 5) as nat) as int) % 2);
        assert(bb(5 * i + k % 5) == byte_bit(data, k));
    }
    lemma_bits_value_of(qb, 8 * j, 8, data[j] as int, 8);
    assert((8 - 8) as nat == 0);
    assert(data[j] as int / 1 == data[j] as int);
}

/// The value of group `i` of `w` bits of `data`, most significant first.
pub open spec fn bit_group(data: Seq<u8>, w: nat, i: int) -> int {
    bits_value(|k: int| byte_bit(data, k), w * i, w)
}

/// Two byte strings of one length whose bits agree, group by group of `w`
/// bits, over `g` groups that cover them are equal.
pub(crate) proof fn lemma_groups_determine_bytes(d1: Seq<u8>, d2: Seq<u8>, w: nat, g: nat)
    requires
        d1.len() == d2.len(),
        1 <= w <= 8,
        w * g >= 8 * d1.len(),
        forall|i: int| 0 <= i < g ==> #[trigger] bit_group(d1, w, i) == bit_group(d2, w, i),
    ensures
        d1 == d2,
{
    let b1 = |k: int| byte_bit(d1, k);
    let b2 = |k: int| byte_bit(d2, k);
    let n = d1.len();
    vstd::arithmetic::power2::lemma2_to64();
    assert forall|j: int| 0 <= j < n implies d1[j] == d2[j] by {
        assert forall|t: int| 0 <= t < 8 implies #[trigger] b2(8 * j + t)
            == (d1[j] as int / vstd::arithmetic::power2::pow2((8 - 1 - t) as nat) as int) % 2 by {
            let k = 8 * j + t;
            assert(k / 8 == j && k % 8 == t) by (nonlinear_arith)
                requires
                    k == 8 * j + t,
                    0 <= t < 8,
            ;
            let i = k / (w as int);
            assert(0 <= i < g && w * i + k % (w as int) == k && 0 <= k % (w as int) < w) by (nonlinear_arith)
                requires
                    0 <= k < 8 * n,
                    w * g >= 8 * n,
                    i == k / (w as int),
                    w >= 1,
            ;
            lemma_byte_bits_binary(d1, w * i, w);
            lemma_byte_bits_binary(d2, w * i, w);
            lemma_bits_value_bit(b1, w * i, w, k % (w as int));
            lemma_bits_value_bit(b2, w * i, w, k % (w as int));
            assert(bit_group(d1, w, i) == bit_group(d2, w, i));
            assert(b1(k) == b2(k));
            assert(b1(k) == byte_bit(d1, k));
        }
        lemma_bits_value_of(b2, 8 * j, 8, d1[j] as int, 8);
        assert forall|t: int| 0 <= t < 8 implies #[trigger] b2(8 * j + t)
            == (d2[j] as int / vstd::arithmetic::power2::pow2((8 - 1 - t) as nat) as int) % 2 by {
            let k = 8 * j + t;
            assert(k / 8 == j && k % 8 == t) by (nonlinear_arith)
                requires
                    k == 8 * j + t,
                    0 <= t < 8,
            ;
        }
        lemma_bits_value_of(b2, 8 * j, 8, d2[j] as int, 8);
        assert((8 - 8) as nat == 0);
        assert(d1[j] as int / 1 == d1[j] as int);
        assert(d2[j] as int / 1 == d2[j] as int);
    }
    assert(d1 =~= d2);
}

/// Every character of a Base32 encoding is in the alphabet, and reading the
/// alphabet positions back as bits gives the encoded bytes again.
pub proof fn lemma_base32_roundtrip(data: Seq<u8>)
    ensures
        forall|i: int| #![trigger base32_encode_spec(data)[i]] 0 <= i < base32_encode_spec(data).len() ==> {
            let c = base32_encode_spec(data)[i];
            (c as u32) < 128 && !base32_skipped(c) && !('a' <= c && c <= 'z') && base32_index(c) is Some
        },
        base32_bytes(base32_encode_spec(data).map_values(|c: char| base32_index(c)->0 as u8)) == data,
{
    let enc = base32_encode_spec(data);
    let n = data.len();
    let m = enc.len();
    let vals = enc.map_values(|c: char| base32_index(c)->0 as u8);
    assert forall|i: int| 0 <= i < m implies #[trigger] vals[i] as int == bits_value(
        |k: int| byte_bit(data, k),
        5 * i,
        5,
    ) by {
        lemma_base32_char(data, i);
    }
    assert forall|i: int| #![trigger enc[i]] 0 <= i < m implies {
        let c = enc[i];
        (c as u32) < 128 && !base32_skipped(c) && !('a' <= c && c <= 'z') && base32_index(c) is Some
    } by {
        lemma_base32_char(data, i);
    }
    assert(5 * m / 8 == n) by (nonlinear_arith)
        requires
            m == (8 * n + 4) / 5,
            n >= 0,
    ;
    let out = base32_bytes(vals);
    assert forall|j: int| 0 <= j < n implies out[j] == data[j] by {
        lemma_base32_byte(data, vals, j);
    }
    assert(out =~= data);
}

/// The error message for an invalid Base32 character.
pub open spec fn invalid_base32_message(c: char) -> Seq<char> {
    "حرف Base32 غير صالح: "@.push(c)
}

fn pow2_small(e: u32) -> (p: u32)
    requires
        e <= 7,
    ensures
        p as int == vstd::arithmetic::power2::pow2(e as nat) as int,
        p >= 1,
{
    proof {
        vstd::arithmetic::power2::lemma2_to64();
    }
    match e {
        0 => 1,
        1 => 2,
        2 => 4,
        3 => 8,
        4 => 16,
        5 => 32,
        6 => 64,
        _ => 128,
    }
}

fn alphabet_char(v: u32) -> (c: char)
    requires
        v < 32,
    ensures
        c == base32_alphabet(v as int),
{
    if v < 26 {
        ((65 + v) as u8) as char
    } else {
        ((50 + v - 26) as u8) as char
    }
}

/// Base32-encode bytes (RFC 4648, without padding).
pub fn base32_encode(data: &[u8]) -> (s: String)
    requires
        data@.len() <= usize::MAX / 8,
    ensures
        s@ == base32_encode_spec(data@),
{
    let n = data.len();
    let out_len = (8 * n + 4) / 5;
    let ghost bitf = |k: int| byte_bit(data@, k);
    let mut s = String::new();
    let mut i: usize = 0;
    while i < out_len
        invariant
            i <= out_len,
            n == data@.len(),
            out_len == (8 * n + 4) / 5,
            n <= usize::MAX / 8,
            bitf == (|k: int| byte_bit(data@, k)),
            s@ == base32_encode_spec(data@).subrange(0, i as int),
        decreases out_len - i,
    {
        let mut v: u32 = 0;
        let mut t: usize = 0;
        proof {
            vstd::arithmetic::power2::lemma2_to64();
            assert(5 * out_len <= 8 * n + 4) by (nonlinear_arith)
                requires
                    out_len == (8 * n + 4) / 5,
            ;
        }
        while t < 5
            invariant
                t <= 5,
                i < out_len,
                n == data@.len(),
                out_len == (8 * n + 4) / 5,
                5 * out_len <= 8 * n + 4,
                n <= usize::MAX / 8,
                bitf == (|k: int| byte_bit(data@, k)),
                v as int == bits_value(bitf, 5 * i, t as nat),
                v < vstd::arithmetic::power2::pow2(t as nat),
            decreases 5 - t,
        {
            let k = 5 * i + t;
            let bit: u32 = if k < 8 * n {
                let b = data[k / 8] as u32;
                let p = pow2_small((7 - k % 8) as u32);
                (b / p) % 2
            } else {
                0
            };
            assert(bit as int == bitf(k as int));
            proof {
                vstd::arithmetic::power2::lemma_pow2_unfold((t + 1) as nat);
                vstd::arithmetic::power2::lemma2_to64();
            }
            v = 2 * v + bit;
            t = t + 1;
        }
        proof {
            vstd::arithmetic::power2::lemma2_to64();
        }
        let c = alphabet_char(v);
        push_char(&mut s, c);
        assert(s@ =~= base32_encode_spec(data@).subrange(0, i + 1));
        i = i + 1;
    }
    assert(base32_encode_spec(data@).subrange(0, out_len as int) =~= base32_encode_spec(data@));
    s
}

fn base32_value(c: char) -> (r: Option<u8>)
    ensures
        match r {
            Some(v) => base32_index(c) == Some(v as int) && v < 32,
            None => base32_index(c) == None::<int>,
        },
{
    if 'A' <= c && c <= 'Z' {
        Some(((c as u32) - 65) as u8)
    } else if '2' <= c && c <= '7' {
        Some(((c as u32) - 50 + 26) as u8)
    } else {
        None
    }
}

/// Base32-decode a string already in uppercase: white space and `=` are
/// skipped; the first character outside the alphabet is an error.
pub fn base32_decode_uppercased(s: &str) -> (r: Result<Vec<u8>, String>)
    ensures
        ({
            let cleaned = s@.filter(|c: char| !base32_skipped(c));
            match r {
                Ok(bytes) => (forall|i: int| 0 <= i < cleaned.len() ==> base32_index(cleaned[i]) is Some)
                    && bytes@ == base32_bytes(cleaned.map_values(|c: char| base32_index(c)->0 as u8)),
                Err(e) => exists|i: int|
                    0 <= i < cleaned.len() && base32_index(cleaned[i]) is None && (forall|j: int|
                        0 <= j < i ==> base32_index(cleaned[j]) is Some) && e@
                        == invalid_base32_message(cleaned[i]),
            }
        }),
{
    let ghost p = |c: char| !base32_skipped(c);
    let ghost cleaned = s@.filter(p);
    let n = s.unicode_len();
    let mut vals: Vec<u8> = Vec::new();
    let mut i: usize = 0;
    proof {
        crate::seq_facts::lemma_filter_take_zero(s@, p);
    }
    while i < n
        invariant
            n == s@.len(),
            i <= n,
            p == (|c: char| !base32_skipped(c)),
            cleaned == s@.filter(p),
            vals@.len() == s@.take(i as int).filter(p).len(),
            vals@.len() <= i,
            forall|j: int| 0 <= j < vals@.len() ==> base32_index(s@.take(i as int).filter(p)[j]) == Some(
                vals@[j] as int,
            ) && vals@[j] < 32,
        decreases n - i,
    {
        proof {
            crate::seq_facts::lemma_filter_take_step(s@, p, i as int);
        }
        let c = s.get_char(i);
        if !(crate::text::white_space(c) || c == '=') {
            match base32_value(c) {
                Some(v) => {
                    vals.push(v);
                },
                None => {
                    let ghost k = vals@.len() as int;
                    proof {
                        // the prefix filtered so far is a prefix of `cleaned`
                        crate::seq_facts::lemma_filter_prefix(s@, p, i + 1);
                        assert(s@.take(i + 1).filter(p)[k] == c);
                        assert(cleaned[k] == c);
                        assert forall|j: int| 0 <= j < k implies base32_index(cleaned[j]) is Some by {
                            assert(s@.take(i + 1).filter(p)[j] == s@.take(i as int).filter(p)[j]);
                            assert(cleaned[j] == s@.take(i + 1).filter(p)[j]);
                            assert(base32_index(s@.take(i as int).filter(p)[j]) == Some(vals@[j] as int));
                        }
                    }
                    let mut msg = "حرف Base32 غير صالح: ".to_owned();
                    push_char(&mut msg, c);
                    return Err(msg);
                },
            }
        }
        i = i + 1;
    }
    proof {
        crate::seq_facts::lemma_take_full(s@);
    }
    let ghost vseq = cleaned.map_values(|c: char| base32_index(c)->0 as u8);
    assert forall|i: int| 0 <= i < cleaned.len() implies base32_index(cleaned[i]) is Some by {
        assert(base32_index(cleaned[i]) == Some(vals@[i] as int));
    }
    assert(vals@ =~= vseq);
    let m = vals.len();
    let out_len = m / 8 * 5 + (m % 8) * 5 / 8;
    assert(out_len == 5 * m / 8) by (nonlinear_arith)
        requires
            out_len == m / 8 * 5 + (m % 8) * 5 / 8,
    ;
    let ghost bitf = |k: int| quint_bit(vals@, k);
    let mut out: Vec<u8> = Vec::new();
    let mut j: usize = 0;
    while j < out_len
        invariant
            j <= out_len,
            m == vals@.len(),
            out_len == 5 * m / 8,
            forall|q: int| 0 <= q < vals@.len() ==> vals@[q] < 32,
            bitf == (|k: int| quint_bit(vals@, k)),
            out@ == base32_bytes(vals@).subrange(0, j as int),
        decreases out_len - j,
    {
        let mut v: u32 = 0;
        let mut t: usize = 0;
        proof {
            vstd::arithmetic::power2::lemma2_to64();
        }
        while t < 8
            invariant
                t <= 8,
                j < out_len,
                m == vals@.len(),
                out_len == 5 * m / 8,
                forall|q: int| 0 <= q < vals@.len() ==> vals@[q] < 32,
                bitf == (|k: int| quint_bit(vals@, k)),
                v as int == bits_value(bitf, 8 * j, t as nat),
                v < vstd::arithmetic::power2::pow2(t as nat),
            decreases 8 - t,
        {
            let k: u128 = 8 * (j as u128) + (t as u128);
            let bit: u32 = if k < 5 * (m as u128) {
                let b = vals[(k / 5) as usize] as u32;
                let p = pow2_small((4 - k % 5) as u32);
                (b / p) % 2
            } else {
                0
            };
            assert(bit as int == bitf(k as int));
            proof {
                vstd::arithmetic::power2::lemma_pow2_unfold((t + 1) as nat);
                vstd::arithmetic::power2::lemma2_to64();
            }
            v = 2 * v + bit;
            t = t + 1;
        }
        proof {
            vstd::arithmetic::power2::lemma2_to64();
        }
        out.push(v as u8);
        assert(out@ =~= base32_bytes(vals@).subrange(0, j + 1));
        j = j + 1;
    }
    assert(base32_bytes(vals@).subrange(0, out_len as int) =~= base32_bytes(vals@));
    Ok(out)
}

/// Base32-decode a string, ignoring case, white space and `=` padding.
/// The Base32 encoding of any bytes decodes to those bytes.
pub fn base32_decode(s: &str) -> (r: Result<Vec<u8>, String>)
    ensures
        uppercase_known(s@),
        forall|data: Seq<u8>| #[trigger] base32_encode_spec(data) == s@ ==> r is Ok && r->Ok_0@ == data,
        ({
            let cleaned = uppercase_spec(s@).filter(|c: char| !base32_skipped(c));
            match r {
                Ok(bytes) => (forall|i: int| 0 <= i < cleaned.len() ==> base32_index(cleaned[i]) is Some)
                    && bytes@ == base32_bytes(cleaned.map_values(|c: char| base32_index(c)->0 as u8)),
                Err(e) => exists|i: int|
                    0 <= i < cleaned.len() && base32_index(cleaned[i]) is None && (forall|j: int|
                        0 <= j < i ==> base32_index(cleaned[j]) is Some) && e@
                        == invalid_base32_message(cleaned[i]),
            }
        }),
{
    let up = to_uppercase(s);
    let r = base32_decode_uppercased(up.as_str());
    assert forall|data: Seq<u8>| #[trigger] base32_encode_spec(data) == s@ implies r is Ok && r->Ok_0@ == data by {
        lemma_base32_roundtrip(data);
        assert(forall|i: int| 0 <= i < s@.len() ==> (#[trigger] s@[i] as u32) < 128);
        assert(up@ =~= s@);
        let p = |c: char| !base32_skipped(c);
        assert forall|i: int| 0 <= i < s@.len() implies p(#[trigger] s@[i]) by {}
        crate::seq_facts::lemma_filter_all(s@, p);
        assert(up@.filter(p) == s@);
    }
    r
}

// ---------------------------------------------------------------- HOTP / TOTP

/// The last `n` bytes of the big-endian form of `c`.
pub open spec fn be_bytes(c: nat, n: nat) -> Seq<u8>
    decreases n,
{
    if n == 0 {
        Seq::empty()
    } else {
        be_bytes(c / 256, (n - 1) as nat).push((c % 256) as u8)
    }
}

/// The 8-byte big-endian form of a counter (`u64::to_be_bytes`).
pub open spec fn counter_bytes(c: u64) -> Seq<u8> {
    be_bytes(c as nat, 8)
}

/// Dynamic truncation of an HMAC-SHA1 digest (RFC 4226): the 31-bit number
/// read big-endian at the offset given by the low nibble of the last byte.
pub open spec fn hotp_truncate(d: Seq<u8>) -> int {
    let o = (d[19] % 16) as int;
    (d[o] % 128) as int * 16777216 + d[o + 1] as int * 65536 + d[o + 2] as int * 256 + d[o + 3] as int
}

/// The six-digit code of a digest.
pub open spec fn hotp_code_spec(d: Seq<u8>) -> Seq<char> {
    decimal_digits((hotp_truncate(d) % 1000000) as nat, 6)
}

/// The code of `secret` at time step `counter`.
pub open spec fn totp_code_spec(secret: Seq<u8>, counter: u64) -> Seq<char> {
    hotp_code_spec(hmac_sha1_spec(secret, counter_bytes(counter)))
}

/// Whether `code` is the code of `secret` at a time step within the
/// tolerance of `counter` (earlier steps exist only down to 0).
pub open spec fn code_accepted(secret: Seq<u8>, code: Seq<char>, counter: u64) -> bool {
    exists|o: int| 0 <= o <= TOLERANCE && #[trigger] accepted_at_offset(secret, code, counter, o)
}

/// Whether `code` is the code `o` steps before or after `counter`.
pub open spec fn accepted_at_offset(secret: Seq<u8>, code: Seq<char>, counter: u64, o: int) -> bool {
    ||| (counter - o >= 0 && code == totp_code_spec(secret, (counter - o) as u64))
    ||| (o > 0 && code == totp_code_spec(secret, (counter + o) as u64))
}

/// The 8-byte big-endian form of a counter.
pub fn counter_to_be_bytes(counter: u64) -> (b: Vec<u8>)
    ensures
        b@ == counter_bytes(counter),
{
    let mut out: Vec<u8> = Vec::new();
    let mut rest = counter;
    let mut i: usize = 0;
    while i < 8
        invariant
            i <= 8,
            out@.len() == i,
            be_bytes(counter as nat, 8) == be_bytes(rest as nat, (8 - i) as nat) + out@,
        decreases 8 - i,
    {
        let b = (rest % 256) as u8;
        let ghost prev = out@;
        let ghost old_rest = rest;
        out.insert(0, b);
        rest = rest / 256;
        proof {
            assert(be_bytes(old_rest as nat, (8 - i) as nat) == be_bytes(rest as nat, (8 - i - 1) as nat).push(b));
            assert(out@ =~= seq![b] + prev);
            assert(be_bytes(rest as nat, (8 - i - 1) as nat).push(b) + prev =~= be_bytes(rest as nat, (8 - i
                - 1) as nat) + out@);
        }
        i = i + 1;
    }
    assert(be_bytes(rest as nat, 0) + out@ =~= out@);
    out
}

/// The six-digit HOTP code of an HMAC-SHA1 digest (dynamic truncation,
/// then the last six decimal digits).
pub fn hotp_code_from_digest(d: &[u8]) -> (code: String)
    requires
        d@.len() == 20,
    ensures
        code@ == hotp_code_spec(d@),
{
    let o = (d[19] % 16) as usize;
    let truncated: u32 = (d[o] % 128) as u32 * 16777216 + d[o + 1] as u32 * 65536 + d[o + 2] as u32
        * 256 + d[o + 3] as u32;
    let value = truncated % 1000000;
    zero_padded(value as u64, 6)
}

/// The code of `secret` at time step `counter`.
pub fn generate_code_at(secret: &TotpSecret, counter: u64) -> (code: String)
    ensures
        code@ == totp_code_spec(secret.bytes@, counter),
{
    let msg = counter_to_be_bytes(counter);
    let digest = hmac_sha1(secret.bytes.as_slice(), msg.as_slice());
    hotp_code_from_digest(digest.as_slice())
}

/// The code of `secret` for the current time step.
pub fn generate_current_code(secret: &TotpSecret) -> (code: String)
    ensures
        exists|now: u64| code@ == #[trigger] totp_code_spec(secret.bytes@, now / PERIOD),
{
    let now = system_unix_seconds();
    generate_code_at(secret, now / PERIOD)
}

/// Check `code` against the codes of `secret` at `counter` and the steps
/// within the tolerance around it.
pub fn verify_code_at(secret: &TotpSecret, code: &str, counter: u64) -> (ok: bool)
    requires
        counter as int + TOLERANCE <= u64::MAX,
    ensures
        ok == code_accepted(secret.bytes@, code@, counter),
{
    let mut offset: u64 = 0;
    while offset <= TOLERANCE
        invariant
            offset <= TOLERANCE + 1,
            counter as int + TOLERANCE <= u64::MAX,
            forall|o: int| 0 <= o < offset ==> !#[trigger] accepted_at_offset(secret.bytes@, code@, counter, o),
        decreases TOLERANCE + 1 - offset,
    {
        if offset <= counter {
            let past = generate_code_at(secret, counter - offset);
            if crate::text::str_eq(past.as_str(), code) {
                assert(accepted_at_offset(secret.bytes@, code@, counter, offset as int));
                return true;
            }
        }
        if offset > 0 {
            let future = generate_code_at(secret, counter + offset);
            if crate::text::str_eq(future.as_str(), code) {
                assert(accepted_at_offset(secret.bytes@, code@, counter, offset as int));
                return true;
            }
        }
        offset = offset + 1;
    }
    false
}

/// Check `code` against the current time step and its neighbours.
pub fn verify_code(secret: &TotpSecret, code: &str) -> (ok: bool)
    ensures
        exists|now: u64| ok == #[trigger] code_accepted(secret.bytes@, code@, now / PERIOD),
{
    let now = system_unix_seconds();
    verify_code_at(secret, code, now / PERIOD)
}

/// Whether every one of `codes` is twelve decimal digits.
pub open spec fn all_backup_codes(codes: Seq<String>) -> bool {
    forall|i: int|
        0 <= i < codes.len() ==> exists|v: nat| v < 1000000000000 && #[trigger] codes[i]@ == decimal_digits(v, 12)
}

/// `count` random recovery codes of twelve decimal digits.
pub fn generate_backup_codes(count: usize) -> (codes: Vec<String>)
    ensures
        codes@.len() == count,
        all_backup_codes(codes@),
{
    let mut codes: Vec<String> = Vec::new();
    let mut i: usize = 0;
    while i < count
        invariant
            i <= count,
            codes@.len() == i,
            all_backup_codes(codes@),
        decreases count - i,
    {
        let n = random_below(1000000000000);
        let c = zero_padded(n, 12);
        let ghost prev = codes@;
        codes.push(c);
        assert forall|k: int| 0 <= k < codes@.len() implies exists|v: nat|
            v < 1000000000000 && #[trigger] codes@[k]@ == decimal_digits(v, 12) by {
            if k < prev.len() {
                assert(codes@[k] == prev[k]);
            } else {
                assert(codes@[k]@ == decimal_digits(n as nat, 12));
            }
        }
        i = i + 1;
    }
    codes
}

// ---------------------------------------------------------------- URLs

/// Upper-case hexadecimal digit.
pub open spec fn hex_upper(v: int) -> char {
    if v < 10 {
        ((48 + v) as u8) as char
    } else {
        ((55 + v) as u8) as char
    }
}

/// `%XX` for each byte.
pub open spec fn percent_bytes(b: Seq<u8>) -> Seq<char>
    decreases b.len(),
{
    if b.len() == 0 {
        Seq::empty()
    } else {
        percent_bytes(b.drop_last()) + seq!['%', hex_upper(b.last() as int / 16), hex_upper(b.last() as int % 16)]
    }
}

/// Whether a character is left as it is in a URL component.
pub open spec fn url_safe(c: char) -> bool {
    is_alphanumeric_spec(c) || c == '-' || c == '_' || c == '.' || c == '~'
}

/// The ASCII letters and digits.
pub open spec fn ascii_alphanumeric(c: char) -> bool {
    ('a' <= c && c <= 'z') || ('A' <= c && c <= 'Z') || ('0' <= c && c <= '9')
}

/// Whether, on the ASCII characters of `s`, being alphanumeric is being an
/// ASCII letter or digit.
pub open spec fn alphanumeric_known(s: Seq<char>) -> bool {
    forall|j: int| 0 <= j < s.len() && (s[j] as u32) < 128 ==> #[trigger] is_alphanumeric_spec(s[j])
        == ascii_alphanumeric(s[j])
}

/// URL-encoding of one character: itself when safe, else its UTF-8 bytes
/// as `%XX`.
pub open spec fn url_encode_char(c: char) -> Seq<char> {
    if url_safe(c) {
        seq![c]
    } else {
        percent_bytes(vstd::utf8::encode_scalar(c as u32))
    }
}

/// URL-encoding of a string, character by character.
pub open spec fn url_encode_spec(s: Seq<char>) -> Seq<char>
    decreases s.len(),
{
    if s.len() == 0 {
        Seq::empty()
    } else {
        url_encode_spec(s.drop_last()) + url_encode_char(s.last())
    }
}

fn hex_digit(v: u8) -> (c: char)
    requires
        v < 16,
    ensures
        c == hex_upper(v as int),
{
    if v < 10 {
        (48 + v) as char
    } else {
        (55 + v) as char
    }
}

/// Percent-encode a string for use in a URL.
pub fn url_encode(s: &str) -> (out: String)
    ensures
        out@ == url_encode_spec(s@),
        alphanumeric_known(s@),
{
    let n = s.unicode_len();
    let mut out = String::new();
    let mut i: usize = 0;
    while i < n
        invariant
            n == s@.len(),
            i <= n,
            out@ == url_encode_spec(s@.take(i as int)),
            forall|j: int| 0 <= j < i && (s@[j] as u32) < 128 ==> #[trigger] is_alphanumeric_spec(s@[j])
                == ascii_alphanumeric(s@[j]),
        decreases n - i,
    {
        let c = s.get_char(i);
        let ghost before = out@;
        let alnum = is_alphanumeric(c);
        if alnum || c == '-' || c == '_' || c == '.' || c == '~' {
            push_char(&mut out, c);
        } else {
            let bytes = char_utf8(c);
            let mut j: usize = 0;
            while j < bytes.len()
                invariant
                    j <= bytes@.len(),
                    out@ == before + percent_bytes(bytes@.take(j as int)),
                decreases bytes@.len() - j,
            {
                let b = bytes[j];
                push_char(&mut out, '%');
                push_char(&mut out, hex_digit(b / 16));
                push_char(&mut out, hex_digit(b % 16));
                assert(bytes@.take(j + 1).drop_last() =~= bytes@.take(j as int));
                assert(out@ =~= before + percent_bytes(bytes@.take(j + 1)));
                j = j + 1;
            }
            assert(bytes@.take(bytes@.len() as int) =~= bytes@);
        }
        assert(s@.take(i + 1).drop_last() =~= s@.take(i as int));
        i = i + 1;
    }
    assert(s@.take(n as int) =~= s@);
    out
}

/// The `otpauth://` URL of a secret (for QR codes).
pub open spec fn otpauth_url_spec(secret: Seq<u8>, issuer: Seq<char>, account: Seq<char>) -> Seq<char> {
    "otpauth://totp/"@ + url_encode_spec(issuer) + ":"@ + url_encode_spec(account) + "?secret="@
        + base32_encode_spec(secret) + "&issuer="@ + url_encode_spec(issuer) + "&digits=6&period=30"@
}

impl TotpSecret {
    /// A fresh random 20-byte secret.
    pub fn generate() -> (s: TotpSecret)
        ensures
            s.bytes@.len() == 20,
    {
        TotpSecret { bytes: random_bytes(20) }
    }

    /// A secret made of these bytes.
    pub fn from_bytes(bytes: Vec<u8>) -> (s: TotpSecret)
        ensures
            s.bytes@ == bytes@,
    {
        TotpSecret { bytes }
    }

    /// The Base32 form of the secret.
    pub fn to_base32(&self) -> (s: String)
        requires
            self.bytes@.len() <= usize::MAX / 8,
        ensures
            s@ == base32_encode_spec(self.bytes@),
    {
        base32_encode(self.bytes.as_slice())
    }

    /// A secret read from its Base32 form; the Base32 form of any secret
    /// reads back as that secret.
    pub fn from_base32(s: &str) -> (r: Result<TotpSecret, String>)
        ensures
            uppercase_known(s@),
            forall|data: Seq<u8>| #[trigger] base32_encode_spec(data) == s@ ==> r is Ok && r->Ok_0.bytes@ == data,
            ({
                let cleaned = uppercase_spec(s@).filter(|c: char| !base32_skipped(c));
                match r {
                    Ok(secret) => (forall|i: int| 0 <= i < cleaned.len() ==> base32_index(cleaned[i]) is Some)
                        && secret.bytes@ == base32_bytes(cleaned.map_values(|c: char| base32_index(c)->0 as u8)),
                    Err(e) => exists|i: int|
                        0 <= i < cleaned.len() && base32_index(cleaned[i]) is None && (forall|j: int|
                            0 <= j < i ==> base32_index(cleaned[j]) is Some) && e@
                            == invalid_base32_message(cleaned[i]),
                }
            }),
    {
        match base32_decode(s) {
            Ok(bytes) => Ok(TotpSecret { bytes }),
            Err(e) => Err(e),
        }
    }

    /// The `otpauth://totp/...` URL for this secret.
    pub fn to_otpauth_url(&self, issuer: &str, account: &str) -> (url: String)
        requires
            self.bytes@.len() <= usize::MAX / 8,
        ensures
            url@ == otpauth_url_spec(self.bytes@, issuer@, account@),
            alphanumeric_known(issuer@),
            alphanumeric_known(account@),
    {
        let secret = self.to_base32();
        let issuer_encoded = url_encode(issuer);
        let account_encoded = url_encode(account);
        let mut url = "otpauth://totp/".to_owned();
        push_str(&mut url, issuer_encoded.as_str());
        push_str(&mut url, ":");
        push_str(&mut url, account_encoded.as_str());
        push_str(&mut url, "?secret=");
        push_str(&mut url, secret.as_str());
        push_str(&mut url, "&issuer=");
        push_str(&mut url, issuer_encoded.as_str());
        push_str(&mut url, "&digits=6&period=30");
        url
    }
}

} // verus!
