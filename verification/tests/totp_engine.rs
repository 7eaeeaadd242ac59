use totp::totp::{counter_at, dec_str, get_otp, truncate_tag, Bytes, TOTPSpec};

fn ascii_secret(s: &str) -> Vec<u8> {
    s.as_bytes().to_vec()
}

#[test]
fn rfc4226_test_counter_1() {
    let spec = TOTPSpec::default().with_secret(ascii_secret("12345678901234567890"));
    let x = get_otp(&spec, 1);
    assert_eq!(x, "287082");
}

#[test]
fn rfc4226_test_counter_9() {
    let spec = TOTPSpec::default().with_secret(ascii_secret("12345678901234567890"));
    let x = get_otp(&spec, 9);
    assert_eq!(x, "520489");
}

#[test]
fn int_to_bytes() {
    let mut v = [0u8; 8];
    v[7] = 0x39;
    v[6] = 0x5;
    assert_eq!(Bytes::from(1337).0, v);
}

#[test]
fn totp_spec_default() {
    let spec = TOTPSpec::default();
    assert_eq!(spec.digits(), 6);
    assert_eq!(spec.period(), 30);
    assert_eq!(spec.algorithm(), "SHA1");
}

#[test]
fn int_to_bytes_zero_and_large() {
    assert_eq!(Bytes::from(0).0, [0u8; 8]);
    assert_eq!(
        Bytes::from(0xdead_beef).0,
        [0, 0, 0, 0, 0xde, 0xad, 0xbe, 0xef]
    );
}

#[test]
fn rfc4226_truncation_vector() {
    // The HMAC-SHA1 tag for counter 0 of the RFC 4226 test secret; its
    // dynamic truncation picks offset 0 and yields 0x4c93cf18.
    let tag: Vec<u8> = vec![
        0xcc, 0x93, 0xcf, 0x18, 0x50, 0x8d, 0x94, 0x93, 0x4c, 0x64, 0xb6, 0x5d, 0x8b, 0xa7, 0x66,
        0x7f, 0xb7, 0xcd, 0xe4, 0xb0,
    ];
    assert_eq!(truncate_tag(&tag), 0x4c93cf18);
}

#[test]
fn decimal_rendering() {
    assert_eq!(dec_str(755224, 6), "755224");
    assert_eq!(dec_str(42, 6), "000042");
    assert_eq!(dec_str(1234567, 6), "234567");
    assert_eq!(dec_str(0, 8), "00000000");
}

#[test]
fn otp_width_matches_digits() {
    for digits in [6u8, 7, 8] {
        let spec = TOTPSpec::build(
            ascii_secret("12345678901234567890"),
            30,
            digits,
            String::from("SHA1"),
            String::new(),
        );
        let code = get_otp(&spec, 42);
        assert_eq!(code.len(), digits as usize);
        assert!(code.chars().all(|c| c.is_ascii_digit()));
    }
}

#[test]
fn otp_is_deterministic() {
    let spec = TOTPSpec::default().with_secret(ascii_secret("12345678901234567890"));
    let a = get_otp(&spec, 123456);
    let b = get_otp(&spec, 123456);
    assert_eq!(a, b);
}

#[test]
fn build_normalises_fields() {
    let spec = TOTPSpec::build(vec![], 0, 3, String::from("SHA1"), String::new());
    assert_eq!(spec.period(), 30);
    assert_eq!(spec.digits(), 6);
    let spec = TOTPSpec::build(vec![1, 2], 15, 7, String::from("SHA256"), String::from("x"));
    assert_eq!(spec.period(), 15);
    assert_eq!(spec.digits(), 7);
    assert_eq!(spec.algorithm(), "SHA256");
    assert_eq!(spec.issuer(), "x");
    assert_eq!(spec.secret(), &vec![1, 2]);
}

#[test]
fn counter_from_time() {
    assert_eq!(counter_at(0, 30), 0);
    assert_eq!(counter_at(29, 30), 0);
    assert_eq!(counter_at(30, 30), 1);
    assert_eq!(counter_at(59, 30), 1);
    assert_eq!(counter_at(60, 30), 2);
}

#[test]
fn current_code_has_configured_width() {
    let spec = TOTPSpec::default().with_secret(ascii_secret("12345678901234567890"));
    let code = spec.get_otp();
    assert_eq!(code.len(), 6);
    assert!(code.chars().all(|c| c.is_ascii_digit()));
}
