use ray_tracing::text::{
    is_whitespace_char, parse_i32, parse_unit_thousandths, parse_usize, split_words, starts_with_dashes, str_eq, trim,
};

#[test]
fn trim_removes_surrounding_whitespace() {
    assert_eq!(trim("  a b \t\n"), "a b");
    assert_eq!(trim(""), "");
    assert_eq!(trim("   "), "");
    assert_eq!(trim("\u{3000}x\u{a0}"), "x");
    assert_eq!(trim("x"), "x");
}

#[test]
fn trim_agrees_with_std() {
    let samples = ["", " ", "a", " a ", "\u{85}z\u{2028}", "\u{1680}\u{205f}q r\u{202f}", "\u{200b}x", "\u{180e}y", "\r\n\tk\x0b\x0c"];
    for s in samples {
        assert_eq!(trim(s), s.trim(), "{:?}", s);
    }
}

#[test]
fn whitespace_agrees_with_std() {
    for u in 0u32..0x3100 {
        if let Some(c) = char::from_u32(u) {
            assert_eq!(is_whitespace_char(c), c.is_whitespace(), "{:x}", u);
        }
    }
}

#[test]
fn parse_usize_accepts_numerals() {
    assert_eq!(parse_usize("42"), Some(42));
    assert_eq!(parse_usize("+7"), Some(7));
    assert_eq!(parse_usize("007"), Some(7));
    assert_eq!(parse_usize("0"), Some(0));
    assert_eq!(parse_usize(&usize::MAX.to_string()), Some(usize::MAX));
}

#[test]
fn parse_usize_refuses_other_text() {
    assert_eq!(parse_usize(""), None);
    assert_eq!(parse_usize("+"), None);
    assert_eq!(parse_usize("-0"), None);
    assert_eq!(parse_usize(" 5"), None);
    assert_eq!(parse_usize("1a"), None);
    assert_eq!(parse_usize("++1"), None);
    assert_eq!(parse_usize("99999999999999999999999999"), None);
}

#[test]
fn parse_usize_agrees_with_std() {
    let samples = ["", "+", "-", "0", "12", "+12", "-12", "1 ", "١", "18446744073709551615", "18446744073709551616", "4294967296", "00000000000000000000000000001"];
    for s in samples {
        assert_eq!(parse_usize(s), s.parse::<usize>().ok(), "{:?}", s);
    }
}

#[test]
fn parse_i32_reads_signed_numerals() {
    assert_eq!(parse_i32("-2147483648"), Some(i32::MIN));
    assert_eq!(parse_i32("2147483647"), Some(i32::MAX));
    assert_eq!(parse_i32("2147483648"), None);
    assert_eq!(parse_i32("-2147483649"), None);
    assert_eq!(parse_i32("-"), None);
    assert_eq!(parse_i32("+12"), Some(12));
    assert_eq!(parse_i32("-0"), Some(0));
    assert_eq!(parse_i32("24"), Some(24));
}

#[test]
fn parse_i32_agrees_with_std() {
    let samples = ["", "+", "-", "+-1", "-+1", "0", "-7", "+7", "7x", "99999999999", "-2147483648", "2147483648"];
    for s in samples {
        assert_eq!(parse_i32(s), s.parse::<i32>().ok(), "{:?}", s);
    }
}

#[test]
fn str_eq_compares_characters() {
    assert!(str_eq("abc", "abc"));
    assert!(!str_eq("abc", "abd"));
    assert!(!str_eq("abc", "ab"));
    assert!(str_eq("", ""));
}

#[test]
fn flags_start_with_two_dashes() {
    assert!(starts_with_dashes("--ball"));
    assert!(starts_with_dashes("--"));
    assert!(!starts_with_dashes("-1"));
    assert!(!starts_with_dashes("PAF"));
}

#[test]
fn split_words_agrees_with_std() {
    let samples = ["", "   ", "a", " a  b\tc ", "0.5 0.5 0.5", "x\u{3000}y", "\u{85}lead trail\u{a0}"];
    for s in samples {
        assert_eq!(split_words(s), s.split_whitespace().collect::<Vec<_>>(), "{:?}", s);
    }
}

#[test]
fn unit_decimals_in_thousandths() {
    assert_eq!(parse_unit_thousandths("0.5"), Some(500));
    assert_eq!(parse_unit_thousandths(".25"), Some(250));
    assert_eq!(parse_unit_thousandths("1"), Some(1000));
    assert_eq!(parse_unit_thousandths("0"), Some(0));
    assert_eq!(parse_unit_thousandths("00.0125"), Some(13));
    assert_eq!(parse_unit_thousandths("0.0124"), Some(12));
    assert_eq!(parse_unit_thousandths("0.9999"), Some(1000));
    assert_eq!(parse_unit_thousandths("1.000000"), Some(1000));
    assert_eq!(parse_unit_thousandths("1.01"), None);
    assert_eq!(parse_unit_thousandths("2"), None);
    assert_eq!(parse_unit_thousandths("10"), None);
    assert_eq!(parse_unit_thousandths("."), None);
    assert_eq!(parse_unit_thousandths(""), None);
    assert_eq!(parse_unit_thousandths("0.5.1"), None);
    assert_eq!(parse_unit_thousandths("1e-1"), None);
}
