use alpamayo::text::{
    copy_optional, find_char, parse_unsigned, skip_leading, starts_with, to_decimal, trim,
    with_number,
};

#[test]
fn decimal_numbers_are_written() {
    assert_eq!(to_decimal(0), "0");
    assert_eq!(to_decimal(9), "9");
    assert_eq!(to_decimal(10), "10");
    assert_eq!(to_decimal(1_234_567_890), "1234567890");
    assert_eq!(to_decimal(u64::MAX), u64::MAX.to_string());
}

#[test]
fn decimal_numbers_are_read() {
    assert_eq!(parse_unsigned("0", u64::MAX), Some(0));
    assert_eq!(parse_unsigned("007", u64::MAX), Some(7));
    assert_eq!(parse_unsigned("+42", u64::MAX), Some(42));
    assert_eq!(parse_unsigned("18446744073709551615", u64::MAX), Some(u64::MAX));
    assert_eq!(parse_unsigned("18446744073709551616", u64::MAX), None);
    assert_eq!(parse_unsigned("99999999999999999999999", u64::MAX), None);
    assert_eq!(parse_unsigned("256", 255), None);
    assert_eq!(parse_unsigned("255", 255), Some(255));
    assert_eq!(parse_unsigned("9", 3), None);
}

#[test]
fn what_is_no_number_is_not_read() {
    for text in ["", "+", "-1", " 1", "1 ", "1a", "a1", "++1", "1_000", "\u{661}"] {
        assert_eq!(parse_unsigned(text, u64::MAX), None, "{text:?}");
        assert!(text.parse::<u64>().is_err(), "{text:?}");
    }
}

#[test]
fn numbers_are_read_back() {
    for n in [0, 1, 9, 10, 99, 100, 12_345, u64::MAX - 1, u64::MAX] {
        assert_eq!(parse_unsigned(&to_decimal(n), u64::MAX), Some(n));
    }
}

#[test]
fn white_space_is_trimmed() {
    for text in ["", " ", "a", " a ", "\t\na b\r\n", "\u{a0}x\u{3000}", "\u{2003}y\u{205f}", "\u{200b}z"] {
        assert_eq!(trim(text), text.trim(), "{text:?}");
    }
}

#[test]
fn leading_characters_are_skipped() {
    assert_eq!(skip_leading("==1=2", '='), "1=2");
    assert_eq!(skip_leading("1", '='), "1");
    assert_eq!(skip_leading("===", '='), "");
    assert_eq!(skip_leading("", '='), "");
}

#[test]
fn prefixes_are_found() {
    assert!(starts_with("abc", ""));
    assert!(starts_with("abc", "ab"));
    assert!(starts_with("abc", "abc"));
    assert!(!starts_with("abc", "abcd"));
    assert!(!starts_with("abc", "b"));
}

#[test]
fn characters_are_found() {
    assert_eq!(find_char("a:b:c", ':'), Some(1));
    assert_eq!(find_char("\u{e9}:", ':'), Some(1));
    assert_eq!(find_char("abc", ':'), None);
}

#[test]
fn texts_are_copied_and_joined() {
    assert_eq!(with_number("max ", 12), "max 12");
    assert_eq!(copy_optional(&None), None);
    assert_eq!(copy_optional(&Some("x".to_string())), Some("x".to_string()));
}
