use keepkey_vault::parse_derivation_path;
use keepkey_vault::path::{parse_u32_dec, parse_u64_dec, HARDENED_BIT};

#[test]
fn parses_hardened_and_plain_components() {
    let v = parse_derivation_path("m/44'/0'/0'/0/0").expect("parses");
    assert_eq!(
        v,
        vec![44 | HARDENED_BIT, HARDENED_BIT, HARDENED_BIT, 0, 0]
    );
}

#[test]
fn parses_without_leading_marker() {
    let v = parse_derivation_path("44'/60'/0'/0/0").expect("parses");
    assert_eq!(v[1], 60 | HARDENED_BIT);
    assert_eq!(v.len(), 5);
}

#[test]
fn high_component_keeps_its_bit() {
    let v = parse_derivation_path("m/2147483692/2147483648").expect("parses");
    assert_eq!(v, vec![2147483692, 2147483648]);
}

#[test]
fn doubled_apostrophes_still_harden_once() {
    let v = parse_derivation_path("m/44''").expect("parses");
    assert_eq!(v, vec![44 | HARDENED_BIT]);
}

#[test]
fn rejects_empty_and_malformed_components() {
    assert!(parse_derivation_path("m/").is_err());
    assert!(parse_derivation_path("").is_err());
    assert!(parse_derivation_path("m/44'/x/0").is_err());
    assert!(parse_derivation_path("m/44'//0").is_err());
    assert!(parse_derivation_path("m/44'x'").is_err());
}

#[test]
fn rejects_component_overflow() {
    assert!(parse_derivation_path("m/4294967296").is_err());
    assert!(parse_derivation_path("m/4294967295").is_ok());
}

#[test]
fn decimal_parsers_agree_with_bounds() {
    assert_eq!(parse_u32_dec("0"), Some(0));
    assert_eq!(parse_u32_dec("4294967295"), Some(u32::MAX));
    assert_eq!(parse_u32_dec("4294967296"), None);
    assert_eq!(parse_u32_dec(""), None);
    assert_eq!(parse_u32_dec("12a"), None);
    assert_eq!(parse_u64_dec("18446744073709551615"), Some(u64::MAX));
    assert_eq!(parse_u64_dec("18446744073709551616"), None);
    assert_eq!(parse_u64_dec("000123"), Some(123));
}
