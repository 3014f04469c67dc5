//! Encodings and clocks that SAML relies on: Base64, hexadecimal, UTF-8
//! text, calendar dates and ISO-8601 timestamps.

use vstd::prelude::*;
use base64::Engine;
use crate::auth::totp::{bits_value, byte_bit};
use vstd::string::StringSliceAdditionalSpecFns;
use crate::text::{decimal_digits, push_char, push_str, zero_padded};

verus! {

/// The Base64 alphabet (RFC 4648, section 4).
pub open spec fn base64_alphabet(v: int) -> char {
    if v < 26 {
        ((65 + v) as u8) as char
    } else if v < 52 {
        ((97 + v - 26) as u8) as char
    } else if v < 62 {
        ((48 + v - 52) as u8) as char
    } else if v == 62 {
        '+'
    } else {
        '/'
    }
}

/// Base64 with padding (RFC 4648, section 4): each 6 bits of the input,
/// most significant first, become one character, the last group filled
/// with zero bits; `=` pads the output to a multiple of four characters.
pub open spec fn base64_spec(data: Seq<u8>) -> Seq<char> {
    Seq::new(
        (4 * ((data.len() + 2) / 3)) as nat,
        |i: int|
            if i < (8 * data.len() + 5) / 6 {
                base64_alphabet(bits_value(|k: int| byte_bit(data, k), 6 * i, 6))
            } else {
                '='
            },
    )
}

/// Base64 encoding with the standard alphabet and padding
/// (`base64::engine::general_purpose::STANDARD.encode`), as the crate
/// documents it: RFC 4648, section 4.
#[verifier::external_body]
pub(crate) fn base64_encode(data: &[u8]) -> (s: String)
    ensures
        s@ == base64_spec(data@),
{
    base64::engine::general_purpose::STANDARD.encode(data)
}

/// The bytes whose Base64 form is `s`, if there are any (there is at most
/// one such byte string).
pub closed spec fn base64_decoded(s: Seq<char>) -> Option<Seq<u8>> {
    if exists|b: Seq<u8>| #[trigger] base64_spec(b) == s {
        Some(choose|b: Seq<u8>| #[trigger] base64_spec(b) == s)
    } else {
        None
    }
}

/// Base64 decoding with the standard alphabet and padding
/// (`base64::engine::general_purpose::STANDARD.decode`). The crate decodes
/// canonically (padding required, zero trailing bits): it accepts exactly
/// the encodings of byte strings, and gives those bytes back. The error is
/// the crate's message.
#[verifier::external_body]
pub(crate) fn base64_decode(s: &str) -> (r: Result<Vec<u8>, String>)
    ensures
        match r {
            Ok(b) => s@ == base64_spec(b@),
            Err(_) => forall|b: Seq<u8>| #[trigger] base64_spec(b) != s@,
        },
{
    base64::engine::general_purpose::STANDARD.decode(s).map_err(|e| e.to_string())
}

/// The character code of each letter of the Base64 alphabet.
proof fn lemma_base64_code(v: int)
    requires
        0 <= v < 64,
    ensures
        base64_alphabet(v) as int == if v < 26 {
            65 + v
        } else if v < 52 {
            71 + v
        } else if v < 62 {
            v - 4
        } else if v == 62 {
            43
        } else {
            47
        },
{
    if v < 26 {
        assert(((65 + v) as u8) as char as int == 65 + v);
    } else if v < 52 {
        assert(((97 + v - 26) as u8) as char as int == 71 + v);
    } else if v < 62 {
        assert(((48 + v - 52) as u8) as char as int == v - 4);
    }
}

/// Different byte strings have different Base64 forms.
pub proof fn lemma_base64_injective(d1: Seq<u8>, d2: Seq<u8>)
    requires
        base64_spec(d1) == base64_spec(d2),
    ensures
        d1 == d2,
{
    let n1 = d1.len() as int;
    let n2 = d2.len() as int;
    let g1 = (8 * n1 + 5) / 6;
    let g2 = (8 * n2 + 5) / 6;
    let e = base64_spec(d1);
    assert(e.len() == 4 * ((n1 + 2) / 3));
    assert(base64_spec(d2).len() == 4 * ((n2 + 2) / 3));
    assert(g1 <= e.len() && g2 <= e.len()) by (nonlinear_arith)
        requires
            g1 == (8 * n1 + 5) / 6,
            g2 == (8 * n2 + 5) / 6,
            e.len() == 4 * ((n1 + 2) / 3),
            e.len() == 4 * ((n2 + 2) / 3),
            n1 >= 0,
            n2 >= 0,
    ;
    // the first padding character, or the end, tells the number of groups
    assert forall|i: int| 0 <= i < 64 implies base64_alphabet(i) != '=' by {
        lemma_base64_code(i);
    }
    if g1 < g2 {
        crate::auth::totp::lemma_bits_value_range(|k: int| byte_bit(d2, k), 6 * g1, 6);
        crate::auth::totp::lemma_byte_bits_binary(d2, 6 * g1, 6);
        vstd::arithmetic::power2::lemma2_to64();
        assert(e[g1] == '=');
        assert(base64_spec(d2)[g1] != '=');
    }
    if g2 < g1 {
        crate::auth::totp::lemma_bits_value_range(|k: int| byte_bit(d1, k), 6 * g2, 6);
        crate::auth::totp::lemma_byte_bits_binary(d1, 6 * g2, 6);
        vstd::arithmetic::power2::lemma2_to64();
        assert(base64_spec(d2)[g2] == '=');
        assert(e[g2] != '=');
    }
    assert(n1 == n2) by (nonlinear_arith)
        requires
            (8 * n1 + 5) / 6 == (8 * n2 + 5) / 6,
            n1 >= 0,
            n2 >= 0,
    ;
    let g = g1 as nat;
    assert(6 * g >= 8 * n1) by (nonlinear_arith)
        requires
            g == (8 * n1 + 5) / 6,
    ;
    assert forall|i: int| 0 <= i < g implies #[trigger] crate::auth::totp::bit_group(d1, 6, i)
        == crate::auth::totp::bit_group(d2, 6, i) by {
        crate::auth::totp::lemma_byte_bits_binary(d1, 6 * i, 6);
        crate::auth::totp::lemma_byte_bits_binary(d2, 6 * i, 6);
        crate::auth::totp::lemma_bits_value_range(|k: int| byte_bit(d1, k), 6 * i, 6);
        crate::auth::totp::lemma_bits_value_range(|k: int| byte_bit(d2, k), 6 * i, 6);
        vstd::arithmetic::power2::lemma2_to64();
        let v1 = crate::auth::totp::bit_group(d1, 6, i);
        let v2 = crate::auth::totp::bit_group(d2, 6, i);
        assert(0 <= v1 < 64 && 0 <= v2 < 64);
        assert(e[i] == base64_alphabet(v1));
        assert(base64_spec(d2)[i] == base64_alphabet(v2));
        lemma_base64_code(v1);
        lemma_base64_code(v2);
    }
    crate::auth::totp::lemma_groups_determine_bytes(d1, d2, 6, g);
}

/// The Base64 form of any bytes decodes to those bytes.
pub proof fn lemma_base64_roundtrip(data: Seq<u8>)
    ensures
        base64_decoded(base64_spec(data)) == Some(data),
{
    let s = base64_spec(data);
    assert(exists|b: Seq<u8>| #[trigger] base64_spec(b) == s);
    let b = choose|b: Seq<u8>| #[trigger] base64_spec(b) == s;
    lemma_base64_injective(b, data);
}

/// Decoding, stated over `base64_decoded`: the bytes when the text is the encoding of
/// some bytes, an error otherwise.
pub(crate) fn decode_base64(s: &str) -> (r: Result<Vec<u8>, String>)
    ensures
        match r {
            Ok(b) => base64_decoded(s@) == Some(b@),
            Err(_) => base64_decoded(s@) is None,
        },
{
    let r = base64_decode(s);
    proof {
        if r is Ok {
            lemma_base64_roundtrip(r->Ok_0@);
        }
    }
    r
}

/// Text from UTF-8 bytes (`String::from_utf8`): it accepts exactly the
/// valid UTF-8 byte strings. The error is std's message.
#[verifier::external_body]
pub(crate) fn utf8_text(bytes: Vec<u8>) -> (r: Result<String, String>)
    ensures
        match r {
            Ok(s) => vstd::utf8::valid_utf8(bytes@) && s@ == vstd::utf8::decode_utf8(bytes@),
            Err(_) => !vstd::utf8::valid_utf8(bytes@),
        },
{
    String::from_utf8(bytes).map_err(|e| e.to_string())
}

/// Lower-case hexadecimal digit.
pub open spec fn hex_lower_digit(v: int) -> char {
    if v < 10 {
        ((48 + v) as u8) as char
    } else {
        ((87 + v) as u8) as char
    }
}

/// Two lower-case hexadecimal digits per byte, high nibble first.
pub open spec fn hex_lower(b: Seq<u8>) -> Seq<char>
    decreases b.len(),
{
    if b.len() == 0 {
        Seq::empty()
    } else {
        hex_lower(b.drop_last()) + seq![hex_lower_digit(b.last() as int / 16), hex_lower_digit(b.last() as int % 16)]
    }
}

/// Lower-case hexadecimal (`hex::encode`), as the crate documents it.
#[verifier::external_body]
pub(crate) fn hex_encode(b: &[u8]) -> (s: String)
    ensures
        s@ == hex_lower(b@),
{
    hex::encode(b)
}

/// The value of a hexadecimal digit (either case).
pub open spec fn hex_value(c: char) -> Option<int> {
    if '0' <= c && c <= '9' {
        Some(c as int - 48)
    } else if 'a' <= c && c <= 'f' {
        Some(c as int - 87)
    } else if 'A' <= c && c <= 'F' {
        Some(c as int - 55)
    } else {
        None
    }
}

/// The bytes written by pairs of hexadecimal digits, high nibble first; no
/// bytes where the text has an odd length or another character.
pub open spec fn hex_decoded(s: Seq<char>) -> Option<Seq<u8>> {
    if s.len() % 2 == 0 && forall|i: int| 0 <= i < s.len() ==> #[trigger] hex_value(s[i]) is Some {
        Some(Seq::new((s.len() / 2) as nat, |j: int| (16 * hex_value(s[2 * j])->0 + hex_value(s[2 * j + 1])->0) as u8))
    } else {
        None
    }
}

/// Hexadecimal decoding (`hex::decode`), as the crate documents it; the
/// error is the crate's message.
#[verifier::external_body]
pub(crate) fn hex_decode(s: &str) -> (r: Result<Vec<u8>, String>)
    ensures
        match r {
            Ok(b) => hex_decoded(s@) == Some(b@),
            Err(_) => hex_decoded(s@) is None,
        },
{
    hex::decode(s).map_err(|e| e.to_string())
}

/// Lower-case hexadecimal reads back as the bytes it was made of.
pub proof fn lemma_hex_roundtrip(b: Seq<u8>)
    ensures
        hex_decoded(hex_lower(b)) == Some(b),
    decreases b.len(),
{
    lemma_hex_lower_shape(b);
    let h = hex_lower(b);
    assert forall|i: int| 0 <= i < h.len() implies #[trigger] hex_value(h[i]) is Some by {
        let j = i / 2;
        let hi = b[j] as int / 16;
        let lo = b[j] as int % 16;
        assert(hex_value(hex_lower_digit(hi)) == Some(hi));
        assert(hex_value(hex_lower_digit(lo)) == Some(lo));
        if i % 2 == 0 {
            assert(i == 2 * j);
            assert(h[2 * j] == hex_lower_digit(hi));
        } else {
            assert(i == 2 * j + 1);
            assert(h[2 * j + 1] == hex_lower_digit(lo));
        }
    }
    let d = Seq::new((h.len() / 2) as nat, |j: int| (16 * hex_value(h[2 * j])->0 + hex_value(h[2 * j + 1])->0) as u8);
    assert forall|j: int| 0 <= j < b.len() implies d[j] == b[j] by {
        assert(hex_value(h[2 * j])->0 == b[j] as int / 16);
        assert(hex_value(h[2 * j + 1])->0 == b[j] as int % 16);
    }
    assert(d =~= b);
}

/// Hexadecimal is two digits per byte.
pub proof fn lemma_hex_lower_len(b: Seq<u8>)
    ensures
        hex_lower(b).len() == 2 * b.len(),
{
    lemma_hex_lower_shape(b);
}

proof fn lemma_hex_lower_shape(b: Seq<u8>)
    ensures
        hex_lower(b).len() == 2 * b.len(),
        forall|j: int| 0 <= j < b.len() ==> hex_lower(b)[2 * j] == hex_lower_digit(b[j] as int / 16)
            && hex_lower(b)[2 * j + 1] == hex_lower_digit(b[j] as int % 16),
        forall|v: int| 0 <= v < 16 ==> hex_value(#[trigger] hex_lower_digit(v)) == Some(v),
    decreases b.len(),
{
    if b.len() > 0 {
        lemma_hex_lower_shape(b.drop_last());
        let t = b.drop_last();
        assert forall|j: int| 0 <= j < b.len() implies hex_lower(b)[2 * j] == hex_lower_digit(b[j] as int / 16)
            && hex_lower(b)[2 * j + 1] == hex_lower_digit(b[j] as int % 16) by {
            if j < t.len() {
                assert(t[j] == b[j]);
            }
        }
    }
    assert forall|v: int| 0 <= v < 16 implies hex_value(#[trigger] hex_lower_digit(v)) == Some(v) by {
        if v < 10 {
            assert(((48 + v) as u8) as char == ((48 + v) as char));
        }
    }
}

/// The current UTC date and time as (year, month, day, hour, minute,
/// second) (`time::OffsetDateTime::now_utc()`). It depends on the clock;
/// only the ranges that the `time` crate documents for each field are
/// stated.
#[verifier::external_body]
pub(crate) fn utc_now_fields() -> (f: (i32, u8, u8, u8, u8, u8))
    ensures
        -9999 <= f.0 <= 9999,
        1 <= f.1 <= 12,
        1 <= f.2 <= 31,
        f.3 < 24,
        f.4 < 60,
        f.5 < 60,
{
    let now = time::OffsetDateTime::now_utc();
    (now.year(), now.month() as u8, now.day(), now.hour(), now.minute(), now.second())
}

/// Whether a year of the proleptic Gregorian calendar is a leap year.
pub open spec fn leap_year(y: int) -> bool {
    (y % 4 == 0 && y % 100 != 0) || y % 400 == 0
}

/// Days in a month.
pub open spec fn days_in_month(y: int, m: int) -> int {
    if m == 2 {
        if leap_year(y) {
            29
        } else {
            28
        }
    } else if m == 4 || m == 6 || m == 9 || m == 11 {
        30
    } else {
        31
    }
}

/// Days from 1970-01-01 to a date of the proleptic Gregorian calendar.
pub open spec fn days_from_civil(y: int, m: int, d: int) -> int {
    let yy = if m <= 2 {
        y - 1
    } else {
        y
    };
    let mp = if m > 2 {
        m - 3
    } else {
        m + 9
    };
    365 * yy + yy / 4 - yy / 100 + yy / 400 + (153 * mp + 2) / 5 + d - 1 - 719468
}

/// Unix seconds of a UTC date and time, if the `time` crate accepts it:
/// a year within ±9999, a month 1–12, a day of that month, hours below 24,
/// minutes and seconds below 60.
pub open spec fn calendar_seconds_spec(y: int, mo: int, d: int, h: int, mi: int, s: int) -> Option<i64> {
    if -9999 <= y <= 9999 && 1 <= mo <= 12 && 1 <= d <= days_in_month(y, mo) && 0 <= h < 24 && 0 <= mi < 60
        && 0 <= s < 60 {
        Some((days_from_civil(y, mo, d) * 86400 + h * 3600 + mi * 60 + s) as i64)
    } else {
        None
    }
}

/// Unix seconds of a UTC date and time (`time::Month::try_from`,
/// `time::Date::from_calendar_date`, `with_hms_milli`, `assume_utc`,
/// `unix_timestamp`), as the crate documents them.
#[verifier::external_body]
pub(crate) fn calendar_seconds(year: i32, month: u8, day: u8, hour: u8, minute: u8, second: u8) -> (r: Option<i64>)
    ensures
        r == calendar_seconds_spec(year as int, month as int, day as int, hour as int, minute as int, second as int),
{
    let m = time::Month::try_from(month).ok()?;
    let date = time::Date::from_calendar_date(year, m, day).ok()?;
    let dt = date.with_hms_milli(hour, minute, second, 0).ok()?;
    Some(dt.assume_utc().unix_timestamp())
}

/// Whether a byte is an ASCII decimal digit.
pub open spec fn is_digit_byte(b: u8) -> bool {
    48 <= b <= 57
}

/// The number written by ASCII decimal digits.
pub open spec fn digits_value(b: Seq<u8>) -> int
    decreases b.len(),
{
    if b.len() == 0 {
        0
    } else {
        10 * digits_value(b.drop_last()) + (b.last() - 48)
    }
}

/// Whether a byte string is one or more ASCII decimal digits.
pub open spec fn all_digits(b: Seq<u8>) -> bool {
    b.len() > 0 && forall|i: int| 0 <= i < b.len() ==> is_digit_byte(#[trigger] b[i])
}

/// What `str::parse` gives for an integer, before the range check: an
/// optional `+` (or `-` where the type is signed) and one or more
/// decimal digits.
pub open spec fn parse_decimal(b: Seq<u8>, signed: bool) -> Option<int> {
    if b.len() > 0 && b[0] == 43u8 {
        if all_digits(b.skip(1)) {
            Some(digits_value(b.skip(1)))
        } else {
            None
        }
    } else if signed && b.len() > 0 && b[0] == 45u8 {
        if all_digits(b.skip(1)) {
            Some(-digits_value(b.skip(1)))
        } else {
            None
        }
    } else if all_digits(b) {
        Some(digits_value(b))
    } else {
        None
    }
}

fn parse_small(b: &[u8], start: usize, end: usize, signed: bool) -> (r: Option<i32>)
    requires
        start < end <= b@.len(),
        end - start <= 4,
    ensures
        match parse_decimal(b@.subrange(start as int, end as int), signed) {
            Some(v) => r == Some(v as i32) && -9999 <= v <= 9999 && (signed || 0 <= v) && v < pow10(
                (end - start) as nat,
            ),
            None => r is None,
        },
{
    let ghost sub = b@.subrange(start as int, end as int);
    let mut i = start;
    let mut neg = false;
    assert(sub[0] == b@[start as int]);
    if b[i] == 43u8 {
        i = i + 1;
    } else if signed && b[i] == 45u8 {
        neg = true;
        i = i + 1;
    }
    if i == end {
        proof {
            assert(sub.len() == 1);
            assert(sub.skip(1).len() == 0);
            assert(!all_digits(sub.skip(1)));
            assert(sub[0] == 43u8 || (signed && sub[0] == 45u8));
            assert(parse_decimal(sub, signed) is None);
        }
        return None;
    }
    let ghost first = i;
    let ghost digits = b@.subrange(first as int, end as int);
    proof {
        if sub[0] == 43u8 || (signed && sub[0] == 45u8) {
            assert(digits =~= sub.skip(1));
        } else {
            assert(digits =~= sub);
        }
        assert(parse_decimal(sub, signed) == (if all_digits(digits) {
            Some(if neg { -digits_value(digits) } else { digits_value(digits) })
        } else {
            None::<int>
        }));
    }
    let mut v: i32 = 0;
    while i < end
        invariant
            start <= first <= i <= end <= b@.len(),
            end - start <= 4,
            digits == b@.subrange(first as int, end as int),
            sub == b@.subrange(start as int, end as int),
            first < end,
            parse_decimal(sub, signed) == (if all_digits(digits) {
                Some(if neg { -digits_value(digits) } else { digits_value(digits) })
            } else {
                None::<int>
            }),
            neg ==> signed,
            forall|k: int| first <= k < i ==> is_digit_byte(#[trigger] b@[k]),
            v == digits_value(b@.subrange(first as int, i as int)),
            0 <= v < 10000,
            v < crate::auth::sso::codec::pow10((i - first) as nat),
        decreases end - i,
    {
        if b[i] < 48u8 || b[i] > 57u8 {
            proof {
                assert(!is_digit_byte(digits[i - first]));
            }
            return None;
        }
        proof {
            assert(b@.subrange(first as int, i + 1).drop_last() =~= b@.subrange(first as int, i as int));
            assert(pow10((i + 1 - first) as nat) == 10 * pow10((i - first) as nat));
            assert(i + 1 - first <= 4);
            lemma_pow10_bound((i + 1 - first) as nat);
        }
        v = v * 10 + (b[i] - 48) as i32;
        i = i + 1;
    }
    proof {
        lemma_pow10_mono((i - first) as nat, (end - start) as nat);
        assert(b@.subrange(first as int, end as int) =~= digits);
        assert forall|k: int| 0 <= k < digits.len() implies is_digit_byte(#[trigger] digits[k]) by {
            assert(digits[k] == b@[first + k]);
        }
    }
    if neg {
        Some(-v)
    } else {
        Some(v)
    }
}

/// Ten to the power `e`.
pub open spec fn pow10(e: nat) -> int
    decreases e,
{
    if e == 0 {
        1
    } else {
        10 * pow10((e - 1) as nat)
    }
}

proof fn lemma_pow10_mono(a: nat, b: nat)
    requires
        a <= b,
    ensures
        pow10(a) <= pow10(b),
    decreases b,
{
    if a < b {
        lemma_pow10_mono(a, (b - 1) as nat);
        assert(pow10(b) == 10 * pow10((b - 1) as nat));
        lemma_pow10_positive((b - 1) as nat);
    }
}

proof fn lemma_pow10_positive(e: nat)
    ensures
        pow10(e) >= 1,
    decreases e,
{
    if e > 0 {
        lemma_pow10_positive((e - 1) as nat);
    }
}

proof fn lemma_pow10_bound(e: nat)
    requires
        e <= 4,
    ensures
        pow10(e) <= 10000,
{
    reveal_with_fuel(pow10, 5);
}

/// The byte range `start..end` of `b` parsed as an integer, if it parses.
pub open spec fn field(b: Seq<u8>, start: int, end: int, signed: bool) -> Option<int> {
    parse_decimal(b.subrange(start, end), signed)
}

/// Unix seconds of a timestamp `YYYY-MM-DDTHH:MM:SS...` given as UTF-8
/// bytes: at least 20 bytes, the fields at fixed places, the separators
/// not checked.
pub open spec fn iso8601_seconds(b: Seq<u8>) -> Option<i64> {
    if b.len() < 20 {
        None
    } else {
        match (field(b, 0, 4, true), field(b, 5, 7, false), field(b, 8, 10, false), field(b, 11, 13, false), field(b, 14, 16, false), field(b, 17, 19, false)) {
            (Some(y), Some(mo), Some(d), Some(h), Some(mi), Some(s)) => calendar_seconds_spec(y, mo, d, h, mi, s),
            _ => None,
        }
    }
}

/// Unix seconds of a timestamp `YYYY-MM-DDTHH:MM:SSZ`; see
/// [`iso8601_seconds`]. A field that is not plain ASCII makes the
/// timestamp unreadable.
pub fn parse_iso8601(s: &str) -> (r: Option<i64>)
    ensures
        r == iso8601_seconds(vstd::utf8::encode_utf8(s@)),
{
    let b = s.as_bytes();
    if b.len() < 20 {
        return None;
    }
    let y = match parse_small(b, 0, 4, true) {
        Some(v) => v,
        None => {
            return None;
        },
    };
    let mo = match parse_small(b, 5, 7, false) {
        Some(v) => v,
        None => {
            return None;
        },
    };
    let d = match parse_small(b, 8, 10, false) {
        Some(v) => v,
        None => {
            return None;
        },
    };
    let h = match parse_small(b, 11, 13, false) {
        Some(v) => v,
        None => {
            return None;
        },
    };
    let mi = match parse_small(b, 14, 16, false) {
        Some(v) => v,
        None => {
            return None;
        },
    };
    let sec = match parse_small(b, 17, 19, false) {
        Some(v) => v,
        None => {
            return None;
        },
    };
    proof {
        reveal_with_fuel(pow10, 3);
    }
    calendar_seconds(y, mo as u8, d as u8, h as u8, mi as u8, sec as u8)
}

/// A year as `{:04}` prints it.
pub open spec fn year_text(y: int) -> Seq<char> {
    if y >= 0 {
        decimal_digits(y as nat, if y >= 10000 { 5 } else { 4 })
    } else {
        seq!['-'] + decimal_digits((-y) as nat, if -y >= 1000 { 4 } else { 3 })
    }
}

/// An ISO-8601 UTC timestamp `YYYY-MM-DDTHH:MM:SSZ`.
pub open spec fn iso8601_text(f: (i32, u8, u8, u8, u8, u8)) -> Seq<char> {
    year_text(f.0 as int) + "-"@ + decimal_digits(f.1 as nat, 2) + "-"@ + decimal_digits(f.2 as nat, 2) + "T"@
        + decimal_digits(f.3 as nat, 2) + ":"@ + decimal_digits(f.4 as nat, 2) + ":"@ + decimal_digits(f.5 as nat, 2)
        + "Z"@
}

/// An ISO-8601 UTC timestamp of the given fields.
pub fn format_iso8601(f: (i32, u8, u8, u8, u8, u8)) -> (s: String)
    requires
        -9999 <= f.0 <= 9999,
    ensures
        s@ == iso8601_text(f),
{
    let mut s = String::new();
    if f.0 >= 0 {
        let y = f.0 as u64;
        push_str(&mut s, zero_padded(y, 4).as_str());
    } else {
        let y = (-f.0) as u64;
        push_char(&mut s, '-');
        if y >= 1000 {
            push_str(&mut s, zero_padded(y, 4).as_str());
        } else {
            push_str(&mut s, zero_padded(y, 3).as_str());
        }
    }
    push_char(&mut s, '-');
    push_str(&mut s, zero_padded(f.1 as u64, 2).as_str());
    push_char(&mut s, '-');
    push_str(&mut s, zero_padded(f.2 as u64, 2).as_str());
    push_char(&mut s, 'T');
    push_str(&mut s, zero_padded(f.3 as u64, 2).as_str());
    push_char(&mut s, ':');
    push_str(&mut s, zero_padded(f.4 as u64, 2).as_str());
    push_char(&mut s, ':');
    push_str(&mut s, zero_padded(f.5 as u64, 2).as_str());
    push_char(&mut s, 'Z');
    proof {
        reveal_strlit("-");
        reveal_strlit("T");
        reveal_strlit(":");
        reveal_strlit("Z");
    }
    assert(s@ =~= iso8601_text(f));
    s
}

} // verus!
