use famtrust_vault::text::{format_i64, format_u128, parse_u128, str_eq, trim};

#[test]
fn trim_matches_std() {
    for s in ["", "   ", "  abc  ", "\t\n0x12\r\n", "\u{3000}x\u{2003}", "a b", "\u{85}é\u{a0}"] {
        assert_eq!(trim(s), s.trim());
    }
}

#[test]
fn str_eq_compares_characters() {
    assert!(str_eq("abc", "abc"));
    assert!(!str_eq("abc", "abd"));
    assert!(!str_eq("abc", "ab"));
    assert!(str_eq("", ""));
}

#[test]
fn decimal_formatting() {
    assert_eq!(format_u128(0), "0");
    assert_eq!(format_u128(1234567890), "1234567890");
    assert_eq!(format_u128(u128::MAX), u128::MAX.to_string());
    assert_eq!(format_i64(-42), "-42");
    assert_eq!(format_i64(i64::MIN), i64::MIN.to_string());
    assert_eq!(format_i64(7), "7");
}

#[test]
fn u128_parsing_matches_std() {
    let cases = [
        "", "0", "+", "-", "+5", "-5", "007", "12a", " 12", "12 ", "340282366920938463463374607431768211455",
        "340282366920938463463374607431768211456", "99999999999999999999999999999999999999999", "++1", "٣",
    ];
    for s in cases {
        assert_eq!(parse_u128(s), s.parse::<u128>().ok(), "input {:?}", s);
    }
}

#[test]
fn decimal_text_parses_back() {
    for n in [0u128, 9, 10, 86400, 1 << 100, u128::MAX] {
        assert_eq!(parse_u128(&format_u128(n)), Some(n));
    }
}
