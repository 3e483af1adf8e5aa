use mod_cod_barras::digits::{
    char_digit_value, char_is_digit, digit_text, format_number, format_padded, is_number,
    only_digits, parse_unsigned, trim_leading_zeros,
};

#[test]
fn digits_are_told_from_other_characters() {
    assert!(char_is_digit('0'));
    assert!(char_is_digit('9'));
    assert!(!char_is_digit('/'));
    assert!(!char_is_digit(':'));
    assert!(!char_is_digit('a'));
    assert_eq!(char_digit_value('0'), 0);
    assert_eq!(char_digit_value('7'), 7);
    assert_eq!(digit_text(0), "0");
    assert_eq!(digit_text(9), "9");
    assert!(only_digits("0123456789"));
    assert!(only_digits(""));
    assert!(!only_digits("12 3"));
    assert!(!only_digits("+12"));
}

#[test]
fn format_padded_fills_with_zeros() {
    assert_eq!(format_padded(12345, 11), "00000012345");
    assert_eq!(format_padded(0, 3), "000");
    assert_eq!(format_padded(46, 3), "046");
    assert_eq!(format_padded(7, 1), "7");
    assert_eq!(format_padded(0, 0), "");
}

#[test]
fn format_padded_keeps_the_last_digits_only() {
    assert_eq!(format_padded(12345, 4), "2345");
}

#[test]
fn format_number_writes_no_leading_zeros() {
    assert_eq!(format_number(0), "0");
    assert_eq!(format_number(7), "7");
    assert_eq!(format_number(1234), "1234");
    assert_eq!(format_number(u64::MAX), "18446744073709551615");
}

#[test]
fn parse_unsigned_reads_digits() {
    assert_eq!(parse_unsigned("0", 10), Some(0));
    assert_eq!(parse_unsigned("10", 10), Some(10));
    assert_eq!(parse_unsigned("0010", 10), Some(10));
    assert_eq!(parse_unsigned("+7", 10), Some(7));
    assert_eq!(parse_unsigned("18446744073709551615", u64::MAX), Some(u64::MAX));
}

#[test]
fn parse_unsigned_refuses_what_is_no_number() {
    assert_eq!(parse_unsigned("", 10), None);
    assert_eq!(parse_unsigned("+", 10), None);
    assert_eq!(parse_unsigned("-1", 10), None);
    assert_eq!(parse_unsigned("++1", 10), None);
    assert_eq!(parse_unsigned(" 1", 10), None);
    assert_eq!(parse_unsigned("1 ", 10), None);
    assert_eq!(parse_unsigned("1a", 10), None);
    assert_eq!(parse_unsigned("1.5", 10), None);
}

#[test]
fn parse_unsigned_refuses_what_is_above_the_limit() {
    assert_eq!(parse_unsigned("11", 10), None);
    assert_eq!(parse_unsigned("18446744073709551616", u64::MAX), None);
    assert_eq!(parse_unsigned("99999999999999999999999999", u64::MAX), None);
}

#[test]
fn is_number_goes_by_the_shape_alone() {
    assert!(is_number("0"));
    assert!(is_number("+12"));
    assert!(is_number("99999999999999999999999999"));
    assert!(!is_number(""));
    assert!(!is_number("+"));
    assert!(!is_number("12,5"));
}

#[test]
fn trim_leading_zeros_may_leave_nothing() {
    assert_eq!(trim_leading_zeros("0001234"), "1234");
    assert_eq!(trim_leading_zeros("1200"), "1200");
    assert_eq!(trim_leading_zeros("000"), "");
    assert_eq!(trim_leading_zeros(""), "");
}
