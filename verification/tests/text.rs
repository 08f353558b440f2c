use alyson::text::{is_whitespace, parse_u64, trim_str, u64_to_decimal};

#[test]
fn whitespace_matches_std() {
    for c in ['\t', '\n', '\r', ' ', '\u{85}', '\u{a0}', '\u{2003}', '\u{3000}', 'a', '0', '_', '\u{200b}'] {
        assert_eq!(is_whitespace(c), c.is_whitespace(), "{:?}", c);
    }
}

#[test]
fn trim_matches_std() {
    for s in ["", "   ", " alice ", "\tbob\n", "no-trim", " a b ", "\u{3000}x\u{a0}"] {
        assert_eq!(trim_str(s), s.trim());
    }
}

#[test]
fn parse_matches_std() {
    for s in ["0", "42", "+7", "18446744073709551615", "18446744073709551616", "", "+", "-1", "1 2", "007", "99999999999999999999999"] {
        assert_eq!(parse_u64(s), s.parse::<u64>().ok(), "{:?}", s);
    }
}

#[test]
fn decimal_matches_std() {
    for n in [0u64, 9, 10, 123, u64::MAX] {
        assert_eq!(u64_to_decimal(n), n.to_string());
    }
}

#[test]
fn decimal_roundtrip() {
    for n in [0u64, 1, 65535, 1 << 40, u64::MAX] {
        assert_eq!(parse_u64(&u64_to_decimal(n)), Some(n));
    }
}
