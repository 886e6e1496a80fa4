use rusty_replay::text::{
    chars_of, decimal_of_i64, decimal_of_u64, parse_i32, parse_i64, same_text, string_of,
    text_contains,
};

#[test]
fn decimal_rendering_of_integers() {
    assert_eq!(decimal_of_i64(0), "0");
    assert_eq!(decimal_of_i64(7), "7");
    assert_eq!(decimal_of_i64(-7), "-7");
    assert_eq!(decimal_of_i64(1234567890), "1234567890");
    assert_eq!(decimal_of_i64(i64::MAX), "9223372036854775807");
    assert_eq!(decimal_of_i64(i64::MIN), "-9223372036854775808");
    assert_eq!(decimal_of_u64(u64::MAX), "18446744073709551615");
    assert_eq!(decimal_of_u64(10), "10");
}

#[test]
fn parsing_of_decimal_i32() {
    assert_eq!(parse_i32("200"), Some(200));
    assert_eq!(parse_i32("+5"), Some(5));
    assert_eq!(parse_i32("-0"), Some(0));
    assert_eq!(parse_i32("007"), Some(7));
    assert_eq!(parse_i32("2147483647"), Some(i32::MAX));
    assert_eq!(parse_i32("-2147483648"), Some(i32::MIN));
    assert_eq!(parse_i32("2147483648"), None);
    assert_eq!(parse_i32("-2147483649"), None);
    assert_eq!(parse_i32("99999999999999999999999999"), None);
    assert_eq!(parse_i32(""), None);
    assert_eq!(parse_i32("-"), None);
    assert_eq!(parse_i32("+"), None);
    assert_eq!(parse_i32("12a"), None);
    assert_eq!(parse_i32(" 12"), None);
    assert_eq!(parse_i32("1-2"), None);
    assert_eq!(parse_i32("--2"), None);
}

#[test]
fn parsing_agrees_with_the_standard_library() {
    for text in ["0", "-1", "+17", "0000000000000000000012", "2147483648", "x", "", "-", "4294967296"] {
        assert_eq!(parse_i32(text), text.parse::<i32>().ok());
        assert_eq!(parse_i64(text), text.parse::<i64>().ok());
    }
}

#[test]
fn parsing_of_decimal_i64() {
    assert_eq!(parse_i64("9223372036854775807"), Some(i64::MAX));
    assert_eq!(parse_i64("-9223372036854775808"), Some(i64::MIN));
    assert_eq!(parse_i64("9223372036854775808"), None);
    assert_eq!(parse_i64("-9223372036854775809"), None);
    assert_eq!(parse_i64("1024"), Some(1024));
}

#[test]
fn text_search_and_equality() {
    assert!(text_contains("Duplicate entry 'a' for key", "Duplicate entry"));
    assert!(text_contains("xxabc", "abc"));
    assert!(!text_contains("xxab", "abc"));
    assert!(!text_contains("", "a"));
    assert!(text_contains("", ""));
    assert!(text_contains("abc", ""));
    for (text, pattern) in [("", ""), ("abc", ""), ("abc", "bc"), ("abc", "cd"), ("", "x")] {
        assert_eq!(text_contains(text, pattern), text.contains(pattern));
    }
    assert!(same_text("abc", "abc"));
    assert!(!same_text("abc", "abd"));
    assert!(!same_text("abc", "ab"));
    assert_eq!(string_of(&chars_of("h\u{00e9}llo")), "h\u{00e9}llo");
}
