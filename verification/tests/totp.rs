use nexora::auth::totp::{
    base32_decode, base32_encode, generate_backup_codes, generate_code_at, generate_current_code,
    hotp_code_from_digest, url_encode, verify_code, verify_code_at, TotpSecret,
};
use std::time::{SystemTime, UNIX_EPOCH};

const PERIOD: u64 = 30;

#[test]
fn secret_generate_is_20_bytes() {
    let s = TotpSecret::generate();
    assert_eq!(s.bytes.len(), 20);
}

#[test]
fn secret_base32_roundtrip() {
    let s = TotpSecret::generate();
    let encoded = s.to_base32();
    let decoded = TotpSecret::from_base32(&encoded).unwrap();
    assert_eq!(s.bytes, decoded.bytes);
}

#[test]
fn base32_encode_known_value() {
    let encoded = base32_encode(b"Hello");
    assert_eq!(encoded, "JBSWY3DP");
}

#[test]
fn base32_decode_known_value() {
    let decoded = base32_decode("JBSWY3DP").unwrap();
    assert_eq!(decoded, b"Hello");
}

#[test]
fn base32_decode_invalid_char() {
    assert!(base32_decode("INVALID!@#").is_err());
}

#[test]
fn base32_decode_lowercase_works() {
    let decoded = base32_decode("jbswy3dp").unwrap();
    assert_eq!(decoded, b"Hello");
}

#[test]
fn base32_rfc4648_vectors() {
    assert_eq!(base32_encode(b""), "");
    assert_eq!(base32_encode(b"f"), "MY");
    assert_eq!(base32_encode(b"fo"), "MZXQ");
    assert_eq!(base32_encode(b"foo"), "MZXW6");
    assert_eq!(base32_encode(b"foob"), "MZXW6YQ");
    assert_eq!(base32_encode(b"fooba"), "MZXW6YTB");
    assert_eq!(base32_encode(b"foobar"), "MZXW6YTBOI");
    assert_eq!(base32_decode("MZXW6YTBOI======").unwrap(), b"foobar");
    assert_eq!(base32_decode(" mzxw 6ytb\toi ").unwrap(), b"foobar");
}

#[test]
fn base32_decode_error_names_character() {
    assert_eq!(base32_decode("AB1").unwrap_err(), "حرف Base32 غير صالح: 1");
}

#[test]
fn code_is_6_digits() {
    let s = TotpSecret::generate();
    let code = generate_current_code(&s);
    assert_eq!(code.len(), 6);
    assert!(code.chars().all(|c| c.is_ascii_digit()));
}

#[test]
fn code_at_known_counter() {
    let secret = TotpSecret::from_bytes(b"12345678901234567890".to_vec());
    let code = generate_code_at(&secret, 1);
    assert_eq!(code.len(), 6);
    assert_eq!(code, "287082");
}

#[test]
fn code_at_counter_2() {
    let secret = TotpSecret::from_bytes(b"12345678901234567890".to_vec());
    let code = generate_code_at(&secret, 2);
    assert_eq!(code, "359152");
}

#[test]
fn rfc4226_vectors() {
    let secret = TotpSecret::from_bytes(b"12345678901234567890".to_vec());
    let expected = [
        "755224", "287082", "359152", "969429", "338314", "254676", "287922", "162583", "399871",
        "520489",
    ];
    for (i, e) in expected.iter().enumerate() {
        assert_eq!(generate_code_at(&secret, i as u64), *e);
    }
}

#[test]
fn hotp_truncation_rfc4226_example() {
    // RFC 4226 section 5.4 example digest.
    let digest: [u8; 20] = [
        0x1f, 0x86, 0x98, 0x69, 0x0e, 0x02, 0xca, 0x16, 0x61, 0x85, 0x50, 0xef, 0x7f, 0x19, 0xda,
        0x8e, 0x94, 0x5b, 0x55, 0x5a,
    ];
    assert_eq!(hotp_code_from_digest(&digest), "872921");
}

#[test]
fn verify_current_code() {
    let s = TotpSecret::generate();
    let code = generate_current_code(&s);
    assert!(verify_code(&s, &code));
}

#[test]
fn verify_wrong_code() {
    let s = TotpSecret::generate();
    assert!(!verify_code(&s, "000000"));
}

#[test]
fn verify_wrong_code_at_fixed_step() {
    let s = TotpSecret::from_bytes(b"12345678901234567890".to_vec());
    assert!(!verify_code_at(&s, "000000", 1));
}

#[test]
fn verify_empty_code() {
    let s = TotpSecret::generate();
    assert!(!verify_code(&s, ""));
}

#[test]
fn verify_non_digit_code() {
    let s = TotpSecret::generate();
    assert!(!verify_code(&s, "abcdef"));
}

#[test]
fn verify_at_window() {
    let s = TotpSecret::from_bytes(b"12345678901234567890".to_vec());
    assert!(verify_code_at(&s, "359152", 2));
    assert!(verify_code_at(&s, "287082", 2));
    assert!(verify_code_at(&s, "969429", 2));
    assert!(!verify_code_at(&s, "755224", 2));
    assert!(verify_code_at(&s, "755224", 0));
}

#[test]
fn backup_codes_count() {
    let codes = generate_backup_codes(10);
    assert_eq!(codes.len(), 10);
    for c in &codes {
        assert_eq!(c.len(), 12);
        assert!(c.chars().all(|ch| ch.is_ascii_digit()));
    }
}

#[test]
fn backup_codes_are_unique() {
    let codes = generate_backup_codes(100);
    let unique: std::collections::HashSet<_> = codes.iter().collect();
    assert!(unique.len() > 95);
}

#[test]
fn otpauth_url_format() {
    let s = TotpSecret::from_bytes(b"12345678901234567890".to_vec());
    let url = s.to_otpauth_url("Nexora", "alice@example.com");
    assert!(url.starts_with("otpauth://totp/"));
    assert!(url.contains("secret="));
    assert!(url.contains("issuer=Nexora"));
    assert!(url.contains("digits=6"));
    assert!(url.contains("period=30"));
    assert_eq!(
        url,
        "otpauth://totp/Nexora:alice%40example.com?secret=GEZDGNBVGY3TQOJQGEZDGNBVGY3TQOJQ&issuer=Nexora&digits=6&period=30"
    );
}

#[test]
fn otpauth_url_encodes_special_chars() {
    let s = TotpSecret::generate();
    let url = s.to_otpauth_url("My App+Co", "user@test.com");
    assert!(url.contains("My%20App%2BCo"));
    assert!(url.contains("user%40test.com"));
}

#[test]
fn url_encode_multibyte() {
    assert_eq!(url_encode("a b~"), "a%20b~");
    assert_eq!(url_encode("é"), "é");
    assert_eq!(url_encode("€!"), "%E2%82%AC%21");
}

#[test]
fn code_changes_over_time() {
    let s = TotpSecret::generate();
    let code1 = generate_code_at(&s, 0);
    let code2 = generate_code_at(&s, 1);
    let code3 = generate_code_at(&s, 2);
    assert_ne!(code1, code2);
    assert_ne!(code2, code3);
    assert_ne!(code1, code3);
}

#[test]
fn same_secret_same_code() {
    let s = TotpSecret::from_bytes(b"test_secret_20_bytes!".to_vec());
    let now = SystemTime::now().duration_since(UNIX_EPOCH).unwrap().as_secs();
    let counter = now / PERIOD;
    let code1 = generate_code_at(&s, counter);
    let code2 = generate_code_at(&s, counter);
    assert_eq!(code1, code2);
}

#[test]
fn verify_with_tolerance_past() {
    let s = TotpSecret::generate();
    let now = SystemTime::now().duration_since(UNIX_EPOCH).unwrap().as_secs();
    let past_counter = now / PERIOD - 1;
    let past_code = generate_code_at(&s, past_counter);
    assert!(verify_code(&s, &past_code));
}

#[test]
fn verify_with_tolerance_future() {
    let s = TotpSecret::generate();
    let now = SystemTime::now().duration_since(UNIX_EPOCH).unwrap().as_secs();
    let future_counter = now / PERIOD + 1;
    let future_code = generate_code_at(&s, future_counter);
    assert!(verify_code(&s, &future_code));
}

#[test]
fn verify_outside_tolerance_fails() {
    let s = TotpSecret::generate();
    let now = SystemTime::now().duration_since(UNIX_EPOCH).unwrap().as_secs();
    let far_counter = now / PERIOD + 5;
    let far_code = generate_code_at(&s, far_counter);
    assert!(!verify_code(&s, &far_code));
}
