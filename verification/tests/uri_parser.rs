use totp::totp::{get_otp, TOTPSpec};
use totp::uri::{pad_string_to_base32, parse_u32, parse_u8, TotpError};

#[test]
fn totp_test_with_url() {
    let spec = TOTPSpec::new("otpauth://totp/test:user?secret=JBSWY3DPEHPK3PXP").unwrap();
    assert_eq!(get_otp(&spec, 53273637), "927328");
}

#[test]
fn totp_spec_parse() {
    let spec = TOTPSpec::new("otpauth://totp/test:user?digits=3&secret=JBSWY3DPEHPK3PXP").unwrap();
    assert_eq!(spec.digits(), 6);
    assert_eq!(spec.period(), 30);
}

#[test]
fn pad_bytes_test() {
    let mut s = String::from("totp");
    pad_string_to_base32(&mut s);
    assert_eq!(String::from("totp===="), s);
}

#[test]
fn pad_leaves_multiples_of_eight_alone() {
    let mut s = String::new();
    pad_string_to_base32(&mut s);
    assert_eq!(s, "");
    let mut s = String::from("ABCDEFGH");
    pad_string_to_base32(&mut s);
    assert_eq!(s, "ABCDEFGH");
    let mut s = String::from("A");
    pad_string_to_base32(&mut s);
    assert_eq!(s, "A=======");
}

#[test]
fn secret_is_base32_decoded() {
    let spec = TOTPSpec::new("otpauth://totp/test?secret=JBSWY3DPEHPK3PXP").unwrap();
    assert_eq!(
        spec.secret(),
        &vec![0x48, 0x65, 0x6c, 0x6c, 0x6f, 0x21, 0xde, 0xad, 0xbe, 0xef]
    );
}

#[test]
fn defaults_apply_when_keys_are_absent() {
    let spec = TOTPSpec::new("otpauth://totp/test?secret=JBSWY3DPEHPK3PXP").unwrap();
    assert_eq!(spec.period(), 30);
    assert_eq!(spec.digits(), 6);
    assert_eq!(spec.algorithm(), "SHA1");
    assert_eq!(spec.issuer(), "");
}

#[test]
fn recognised_keys_overwrite_fields() {
    let spec = TOTPSpec::new(
        "otpauth://totp/acme:user?secret=JBSWY3DPEHPK3PXP&period=60&digits=8&algorithm=SHA256&issuer=Big%20Corp",
    )
    .unwrap();
    assert_eq!(spec.period(), 60);
    assert_eq!(spec.digits(), 8);
    assert_eq!(spec.algorithm(), "SHA256");
    assert_eq!(spec.issuer(), "Big Corp");
}

#[test]
fn last_occurrence_of_a_key_wins() {
    let spec = TOTPSpec::new("otpauth://totp/t?secret=JBSWY3DPEHPK3PXP&digits=8&digits=7").unwrap();
    assert_eq!(spec.digits(), 7);
}

#[test]
fn unrecognised_keys_are_ignored() {
    let spec = TOTPSpec::new("otpauth://totp/t?foo=bar&secret=JBSWY3DPEHPK3PXP&extra=1").unwrap();
    assert_eq!(spec.digits(), 6);
}

#[test]
fn digit_values_in_range_are_kept() {
    let spec = TOTPSpec::new("otpauth://totp/t?digits=7&secret=JBSWY3DPEHPK3PXP").unwrap();
    assert_eq!(spec.digits(), 7);
    let spec = TOTPSpec::new("otpauth://totp/t?digits=8&secret=JBSWY3DPEHPK3PXP").unwrap();
    assert_eq!(spec.digits(), 8);
    let spec = TOTPSpec::new("otpauth://totp/t?digits=9&secret=JBSWY3DPEHPK3PXP").unwrap();
    assert_eq!(spec.digits(), 6);
}

#[test]
fn zero_period_falls_back_to_default() {
    let spec = TOTPSpec::new("otpauth://totp/t?period=0&secret=JBSWY3DPEHPK3PXP").unwrap();
    assert_eq!(spec.period(), 30);
}

#[test]
fn unparseable_period_is_an_error() {
    let r = TOTPSpec::new("otpauth://totp/t?period=abc");
    assert_eq!(r.unwrap_err(), TotpError::InvalidPeriod);
}

#[test]
fn unparseable_digits_are_an_error() {
    let r = TOTPSpec::new("otpauth://totp/t?digits=abc");
    assert_eq!(r.unwrap_err(), TotpError::InvalidDigits);
    // 300 does not fit the parsed 8-bit field, so it is an error rather
    // than an out-of-range value that clamps to 6.
    let r = TOTPSpec::new("otpauth://totp/t?digits=300");
    assert_eq!(r.unwrap_err(), TotpError::InvalidDigits);
}

#[test]
fn invalid_base32_secret_is_an_error() {
    let r = TOTPSpec::new("otpauth://totp/t?secret=1!!!!!!!");
    assert_eq!(r.unwrap_err(), TotpError::InvalidSecret);
}

#[test]
fn non_totp_host_is_rejected() {
    let r = TOTPSpec::new("otpauth://hotp/t?secret=JBSWY3DPEHPK3PXP");
    assert_eq!(r.unwrap_err(), TotpError::UnsupportedScheme);
    let r = TOTPSpec::new("https://example.com/?secret=JBSWY3DPEHPK3PXP");
    assert_eq!(r.unwrap_err(), TotpError::UnsupportedScheme);
}

#[test]
fn malformed_uri_is_rejected() {
    let r = TOTPSpec::new("not a uri at all");
    assert_eq!(r.unwrap_err(), TotpError::UnsupportedScheme);
    let r = TOTPSpec::new("");
    assert_eq!(r.unwrap_err(), TotpError::UnsupportedScheme);
}

#[test]
fn from_parts_checks_the_host() {
    let pairs: Vec<(String, String)> = vec![];
    assert!(TOTPSpec::from_parts("totp", &pairs).is_ok());
    assert_eq!(
        TOTPSpec::from_parts("hotp", &pairs).unwrap_err(),
        TotpError::UnsupportedScheme
    );
}

#[test]
fn decimal_parse_u32() {
    assert_eq!(parse_u32("0"), Some(0));
    assert_eq!(parse_u32("007"), Some(7));
    assert_eq!(parse_u32("4294967295"), Some(u32::MAX));
    assert_eq!(parse_u32("4294967296"), None);
    assert_eq!(parse_u32(""), None);
    assert_eq!(parse_u32("1a"), None);
    assert_eq!(parse_u32("-1"), None);
}

#[test]
fn decimal_parse_u8() {
    assert_eq!(parse_u8("255"), Some(255));
    assert_eq!(parse_u8("256"), None);
    assert_eq!(parse_u8("6"), Some(6));
    assert_eq!(parse_u8(""), None);
}
