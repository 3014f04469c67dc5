//! Character-level string helpers shared by the rest of the library.

use vstd::prelude::*;
use vstd::string::*;

verus! {

/// Append one character to a string (`String::push`).
#[verifier::external_body]
pub(crate) fn push_char(s: &mut String, c: char)
    ensures
        final(s)@ == old(s)@.push(c),
{
    s.push(c);
}

/// Append a string slice to a string (`String::push_str`).
#[verifier::external_body]
pub(crate) fn push_str(s: &mut String, t: &str)
    ensures
        final(s)@ == old(s)@ + t@,
{
    s.push_str(t);
}

/// An independent copy of a list of strings.
pub fn copy_strings(v: &Vec<String>) -> (r: Vec<String>)
    ensures
        r@ == v@,
{
    let mut r: Vec<String> = Vec::new();
    let mut i: usize = 0;
    while i < v.len()
        invariant
            i <= v@.len(),
            r@ == v@.subrange(0, i as int),
        decreases v@.len() - i,
    {
        r.push(v[i].clone());
        assert(r@ =~= v@.subrange(0, i + 1));
        i = i + 1;
    }
    assert(r@ =~= v@);
    r
}

/// The character of a decimal digit.
pub open spec fn digit_char(d: int) -> char {
    ((d + 48) as u8) as char
}

/// The last `width` decimal digits of `v`, most significant first (leading
/// zeros included): what `format!("{v:0width$}")` prints when `v` has at
/// most `width` digits.
pub open spec fn decimal_digits(v: nat, width: nat) -> Seq<char>
    decreases width,
{
    if width == 0 {
        Seq::empty()
    } else {
        decimal_digits(v / 10, (width - 1) as nat).push(digit_char((v % 10) as int))
    }
}

/// `v` printed in decimal with leading zeros up to `width` digits.
pub fn zero_padded(v: u64, width: usize) -> (s: String)
    ensures
        s@ == decimal_digits(v as nat, width as nat),
{
    let mut digits: Vec<char> = Vec::new();
    let mut rest = v;
    let mut i: usize = 0;
    while i < width
        invariant
            i <= width,
            digits@.len() == i,
            decimal_digits(v as nat, width as nat) == decimal_digits(rest as nat, (width - i) as nat)
                + digits@,
        decreases width - i,
    {
        let d = (rest % 10) as u8;
        let c = (d + 48) as char;
        let ghost old_digits = digits@;
        let ghost old_rest = rest;
        digits.insert(0, c);
        rest = rest / 10;
        proof {
            assert(decimal_digits(old_rest as nat, (width - i) as nat) == decimal_digits(rest as nat, (
            width - i - 1) as nat).push(c));
            assert(digits@ =~= seq![c] + old_digits);
            assert(decimal_digits(rest as nat, (width - i - 1) as nat).push(c) + old_digits
                =~= decimal_digits(rest as nat, (width - i - 1) as nat) + digits@);
        }
        i = i + 1;
    }
    let mut s = String::new();
    let mut j: usize = 0;
    assert(decimal_digits(rest as nat, 0) =~= Seq::<char>::empty());
    while j < digits.len()
        invariant
            j <= digits@.len(),
            s@ == digits@.subrange(0, j as int),
        decreases digits@.len() - j,
    {
        push_char(&mut s, digits[j]);
        assert(s@ =~= digits@.subrange(0, j + 1));
        j = j + 1;
    }
    assert(digits@.subrange(0, digits@.len() as int) =~= digits@);
    assert(decimal_digits(v as nat, width as nat) =~= digits@);
    s
}

/// Number of decimal digits of `v` (1 for 0).
pub open spec fn digit_count(v: nat) -> nat
    decreases v,
{
    if v < 10 {
        1
    } else {
        1 + digit_count(v / 10)
    }
}

/// `v` in decimal without leading zeros (what `format!("{v}")` prints).
pub open spec fn decimal_text(v: nat) -> Seq<char> {
    decimal_digits(v, digit_count(v))
}

/// `v` in decimal without leading zeros.
pub fn decimal(v: u64) -> (s: String)
    ensures
        s@ == decimal_text(v as nat),
{
    let mut width: usize = 1;
    let mut rest: u64 = v;
    proof {
        lemma_digit_count_bound(v as nat);
    }
    while rest >= 10
        invariant
            1 <= width,
            digit_count(v as nat) == width - 1 + digit_count(rest as nat),
            digit_count(v as nat) <= 20,
        decreases rest,
    {
        rest = rest / 10;
        width = width + 1;
    }
    zero_padded(v, width)
}

proof fn lemma_digit_count_bound(v: nat)
    requires
        v <= u64::MAX,
    ensures
        digit_count(v) <= 20,
{
    assert(pow10(20) == 100000000000000000000nat) by {
        reveal_with_fuel(pow10, 21);
    }
    lemma_digit_count_le(v, 20);
}

proof fn lemma_digit_count_le(v: nat, k: nat)
    requires
        k >= 1,
        v < pow10(k),
    ensures
        digit_count(v) <= k,
    decreases k,
{
    if v >= 10 {
        if k == 1 {
            assert(pow10(1) == 10) by {
                reveal_with_fuel(pow10, 2);
            }
        } else {
            let p = pow10((k - 1) as nat);
            assert(v / 10 < p) by (nonlinear_arith)
                requires
                    v < 10 * p,
            ;
            lemma_digit_count_le(v / 10, (k - 1) as nat);
        }
    }
}

spec fn pow10(k: nat) -> nat
    decreases k,
{
    if k == 0 {
        1
    } else {
        10 * pow10((k - 1) as nat)
    }
}

/// White space as `char::is_whitespace` defines it (the Unicode
/// `White_Space` property).
pub open spec fn is_white_space(c: char) -> bool {
    let v = c as u32;
    ||| 0x09 <= v <= 0x0D
    ||| v == 0x20
    ||| v == 0x85
    ||| v == 0xA0
    ||| v == 0x1680
    ||| 0x2000 <= v <= 0x200A
    ||| v == 0x2028
    ||| v == 0x2029
    ||| v == 0x202F
    ||| v == 0x205F
    ||| v == 0x3000
}

/// Whether a character is white space (the Unicode `White_Space` property,
/// as `char::is_whitespace` reports it).
pub fn white_space(c: char) -> (b: bool)
    ensures
        b == is_white_space(c),
{
    let v = c as u32;
    (0x09 <= v && v <= 0x0D) || v == 0x20 || v == 0x85 || v == 0xA0 || v == 0x1680 || (0x2000 <= v
        && v <= 0x200A) || v == 0x2028 || v == 0x2029 || v == 0x202F || v == 0x205F || v == 0x3000
}

/// Equality of two string slices, character by character.
pub fn str_eq(a: &str, b: &str) -> (res: bool)
    ensures
        res == (a@ == b@),
{
    let n = a.unicode_len();
    let m = b.unicode_len();
    if n != m {
        return false;
    }
    let mut i: usize = 0;
    while i < n
        invariant
            n == a@.len(),
            m == b@.len(),
            n == m,
            i <= n,
            forall|k: int| 0 <= k < i ==> a@[k] == b@[k],
        decreases n - i,
    {
        if a.get_char(i) != b.get_char(i) {
            return false;
        }
        i = i + 1;
    }
    assert(a@ =~= b@);
    true
}

/// Whether `s` begins with `prefix`.
pub fn starts_with(s: &str, prefix: &str) -> (res: bool)
    ensures
        res == (prefix@.len() <= s@.len() && s@.subrange(0, prefix@.len() as int) == prefix@),
{
    let n = s.unicode_len();
    let m = prefix.unicode_len();
    if m > n {
        return false;
    }
    let mut i: usize = 0;
    while i < m
        invariant
            n == s@.len(),
            m == prefix@.len(),
            m <= n,
            i <= m,
            forall|k: int| 0 <= k < i ==> s@[k] == prefix@[k],
        decreases m - i,
    {
        if s.get_char(i) != prefix.get_char(i) {
            assert(s@.subrange(0, m as int)[i as int] != prefix@[i as int]);
            return false;
        }
        i = i + 1;
    }
    assert(s@.subrange(0, m as int) =~= prefix@);
    true
}

/// The texts of a list of strings.
pub open spec fn texts(v: Seq<String>) -> Seq<Seq<char>> {
    v.map_values(|s: String| s@)
}

/// Whether a list of strings holds `s`.
pub fn contains_str(v: &Vec<String>, s: &str) -> (b: bool)
    ensures
        b == texts(v@).contains(s@),
{
    let mut i: usize = 0;
    while i < v.len()
        invariant
            i <= v@.len(),
            forall|j: int| 0 <= j < i ==> v@[j]@ != s@,
        decreases v@.len() - i,
    {
        if str_eq(v[i].as_str(), s) {
            assert(texts(v@)[i as int] == s@);
            return true;
        }
        i = i + 1;
    }
    proof {
        if texts(v@).contains(s@) {
            let j = choose|j: int| 0 <= j < texts(v@).len() && texts(v@)[j] == s@;
            assert(v@[j]@ == s@);
        }
    }
    false
}

} // verus!
