use perp_auto_hedge::text::{
    hex, parse_unsigned_bytes, push_decimal, same_text, text_eq_ignore_ascii_case, trim_decimal,
    u64_to_decimal,
};

#[test]
fn decimal_formatting() {
    assert_eq!(u64_to_decimal(0), "0");
    assert_eq!(u64_to_decimal(7), "7");
    assert_eq!(u64_to_decimal(1_700_000_000_001), "1700000000001");
    assert_eq!(u64_to_decimal(u64::MAX), "18446744073709551615");
    let mut s = String::from("t=");
    push_decimal(&mut s, 42);
    assert_eq!(s, "t=42");
}

#[test]
fn decimal_text_parses_back() {
    for n in [0u64, 9, 10, 12345, u64::MAX] {
        let text = u64_to_decimal(n);
        assert_eq!(parse_unsigned_bytes(text.as_bytes(), u64::MAX), Some(n));
    }
}

#[test]
fn unsigned_parsing_follows_str_parse() {
    assert_eq!(parse_unsigned_bytes(b"123", u64::MAX), Some(123));
    assert_eq!(parse_unsigned_bytes(b"+5", u64::MAX), Some(5));
    assert_eq!(parse_unsigned_bytes(b"007", u64::MAX), Some(7));
    assert_eq!(parse_unsigned_bytes(b"", u64::MAX), None);
    assert_eq!(parse_unsigned_bytes(b"+", u64::MAX), None);
    assert_eq!(parse_unsigned_bytes(b"-1", u64::MAX), None);
    assert_eq!(parse_unsigned_bytes(b"12a", u64::MAX), None);
    assert_eq!(parse_unsigned_bytes(b"18446744073709551615", u64::MAX), Some(u64::MAX));
    assert_eq!(parse_unsigned_bytes(b"18446744073709551616", u64::MAX), None);
    assert_eq!(parse_unsigned_bytes(b"65535", 65535), Some(65535));
    assert_eq!(parse_unsigned_bytes(b"65536", 65535), None);
    for s in ["42", "+42", "x", "", "99999999999999999999"] {
        assert_eq!(parse_unsigned_bytes(s.as_bytes(), u64::MAX), s.parse::<u64>().ok());
    }
}

#[test]
fn hex_is_lowercase_two_digits_per_byte() {
    assert_eq!(hex(&[]), "");
    assert_eq!(hex(&[0x00, 0x0f, 0xa0, 0xff]), "000fa0ff");
    let bytes: Vec<u8> = (0..=255).collect();
    let expected: String = bytes.iter().map(|b| format!("{b:02x}")).collect();
    assert_eq!(hex(&bytes), expected);
}

#[test]
fn text_comparisons() {
    assert!(same_text("abc", "abc"));
    assert!(!same_text("abc", "abd"));
    assert!(!same_text("abc", "ab"));
    assert!(text_eq_ignore_ascii_case("OfF", "off"));
    assert!(!text_eq_ignore_ascii_case("of", "off"));
    assert!(!text_eq_ignore_ascii_case("öff", "off"));
}

#[test]
fn decimal_text_is_shortened() {
    assert_eq!(trim_decimal("100.2500000000000000"), "100.25");
    assert_eq!(trim_decimal("3.0000000000000000"), "3");
    assert_eq!(trim_decimal("0.0000000000000000"), "0");
    assert_eq!(trim_decimal("12"), "12");
    assert_eq!(trim_decimal("10"), "1");
    assert_eq!(trim_decimal(""), "");
    for v in [0.5f64, 101.5, 0.001, 42.0, -2.25] {
        let text = format!("{v:.16}");
        assert_eq!(trim_decimal(&text), text.trim_end_matches('0').trim_end_matches('.'));
    }
    assert_eq!(trim_decimal(&format!("{:.16}", 0.5f64)), "0.5");
}
