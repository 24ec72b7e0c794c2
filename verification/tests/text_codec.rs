use clnaddress::text::{normalize_pubkey_hex, parse_json_u64, parse_u64, u64_to_string};

#[test]
fn decimal_rendering_exact() {
    assert_eq!(u64_to_string(0), "0");
    assert_eq!(u64_to_string(9), "9");
    assert_eq!(u64_to_string(10), "10");
    assert_eq!(u64_to_string(100_000_000_000), "100000000000");
    assert_eq!(u64_to_string(u64::MAX), "18446744073709551615");
}

#[test]
fn std_style_parse_accepts_plus_and_leading_zeros() {
    assert_eq!(parse_u64("5"), Some(5));
    assert_eq!(parse_u64("+5"), Some(5));
    assert_eq!(parse_u64("0500"), Some(500));
    assert_eq!(parse_u64("18446744073709551615"), Some(u64::MAX));
}

#[test]
fn std_style_parse_rejects_garbage_and_overflow() {
    assert_eq!(parse_u64(""), None);
    assert_eq!(parse_u64("+"), None);
    assert_eq!(parse_u64("-5"), None);
    assert_eq!(parse_u64("12x"), None);
    assert_eq!(parse_u64("18446744073709551616"), None);
    assert_eq!(parse_u64(" 5"), None);
}

#[test]
fn std_style_parse_matches_reference_parser() {
    for s in ["5", "+5", "0500", "", "+", "-5", "12x", "18446744073709551616"] {
        assert_eq!(parse_u64(s), s.parse::<u64>().ok(), "input {s:?}");
    }
}

#[test]
fn json_number_parse_is_strict() {
    assert_eq!(parse_json_u64("0"), Some(0));
    assert_eq!(parse_json_u64("10"), Some(10));
    assert_eq!(parse_json_u64("+5"), None);
    assert_eq!(parse_json_u64("05"), None);
    assert_eq!(parse_json_u64(""), None);
}

#[test]
fn json_number_parse_matches_reference_reader() {
    for s in ["0", "10", "+5", "05", "", "184467440737095516150"] {
        assert_eq!(
            parse_json_u64(s),
            serde_json::from_str::<u64>(s).ok(),
            "input {s:?}"
        );
    }
}

#[test]
fn pubkey_hex_normalization() {
    let upper = "DEADBEEFDEADBEEFDEADBEEFDEADBEEFDEADBEEFDEADBEEFDEADBEEFDEADBEEF";
    let lower = upper.to_lowercase();
    assert_eq!(normalize_pubkey_hex(upper).as_deref(), Some(lower.as_str()));
    assert_eq!(normalize_pubkey_hex(&lower).as_deref(), Some(lower.as_str()));
}

#[test]
fn pubkey_hex_rejects_bad_input() {
    assert_eq!(normalize_pubkey_hex("deadbeef"), None);
    let not_hex = "zz".repeat(32);
    assert_eq!(normalize_pubkey_hex(&not_hex), None);
    let too_long = "ab".repeat(33);
    assert_eq!(normalize_pubkey_hex(&too_long), None);
}
