use cotim::text::{join_strings, parse_u64, str_contains, str_eq, u64_to_decimal, IntErrorKind};

#[test]
fn decimal_formatting() {
    assert_eq!(u64_to_decimal(0), "0");
    assert_eq!(u64_to_decimal(7), "7");
    assert_eq!(u64_to_decimal(120), "120");
    assert_eq!(u64_to_decimal(u64::MAX), u64::MAX.to_string());
}

#[test]
fn decimal_parsing_matches_std() {
    let cases = ["0", "42", "+7", "007", "+", "-", "-1", "", " 1", "1 ", "1_000", "18446744073709551615",
        "18446744073709551616", "99999999999999999999x", "x99999999999999999999", "١٢"];
    for c in cases {
        let expected = c.parse::<u64>().map_err(|e| match e.kind() {
            std::num::IntErrorKind::Empty => IntErrorKind::Empty,
            std::num::IntErrorKind::InvalidDigit => IntErrorKind::InvalidDigit,
            std::num::IntErrorKind::PosOverflow => IntErrorKind::PosOverflow,
            _ => unreachable!(),
        });
        assert_eq!(parse_u64(c), expected, "{c:?}");
    }
}

#[test]
fn decimal_round_trip() {
    for n in [0u64, 1, 9, 10, 99, 100, 12345, u64::MAX - 1, u64::MAX] {
        assert_eq!(parse_u64(&u64_to_decimal(n)), Ok(n));
    }
}

#[test]
fn text_comparison_and_search() {
    assert!(str_eq("abc", "abc"));
    assert!(!str_eq("abc", "abd"));
    assert!(!str_eq("abc", "ab"));
    assert!(str_contains("a___b", "___"));
    assert!(str_contains("___", "___"));
    assert!(!str_contains("a__b_", "___"));
    assert!(str_contains("anything", ""));
    assert!(!str_contains("", "_"));
}

#[test]
fn joining() {
    let parts = vec!["a".to_string(), "bc".to_string(), "".to_string()];
    assert_eq!(join_strings(&parts, ", "), parts.join(", "));
    assert_eq!(join_strings(&vec![], ", "), "");
    assert_eq!(join_strings(&vec!["x".to_string()], ","), "x");
}
