use rl_auth::text::{eq_ignore_ascii_case, has_prefix, lower, parse_i64, strip_prefix};

#[test]
fn lower_folds_ascii_capitals_only() {
    assert_eq!(lower('A'), 'a');
    assert_eq!(lower('Z'), 'z');
    assert_eq!(lower('q'), 'q');
    assert_eq!(lower('@'), '@');
    assert_eq!(lower('['), '[');
    assert_eq!(lower('7'), '7');
    assert_eq!(lower('É'), 'É');
}

#[test]
fn texts_are_equal_up_to_ascii_case() {
    assert!(eq_ignore_ascii_case("USER", "user"));
    assert!(eq_ignore_ascii_case("User", "uSER"));
    assert!(eq_ignore_ascii_case("", ""));
    assert!(eq_ignore_ascii_case("rôle", "RôLE"));
}

#[test]
fn texts_that_differ_are_not_equal() {
    assert!(!eq_ignore_ascii_case("USER", "USERS"));
    assert!(!eq_ignore_ascii_case("USER", "ADMIN"));
    assert!(!eq_ignore_ascii_case("", "a"));
    assert!(!eq_ignore_ascii_case("é", "É"));
    assert!(!eq_ignore_ascii_case("@", "`"));
}

#[test]
fn prefix_is_found_at_the_start_only() {
    assert!(has_prefix("Bearer abc", "Bearer "));
    assert!(has_prefix("abc", ""));
    assert!(has_prefix("abc", "abc"));
    assert!(!has_prefix("abc", "abcd"));
    assert!(!has_prefix("a Bearer b", "Bearer "));
    assert!(!has_prefix("bearer abc", "Bearer "));
}

#[test]
fn one_leading_prefix_is_removed() {
    assert_eq!(strip_prefix("Bearer abc", "Bearer "), "abc");
    assert_eq!(strip_prefix("abc", "Bearer "), "abc");
    assert_eq!(strip_prefix("Bearer Bearer abc", "Bearer "), "Bearer abc");
    assert_eq!(strip_prefix("abc Bearer ", "Bearer "), "abc Bearer ");
    assert_eq!(strip_prefix("Bearer ", "Bearer "), "");
    assert_eq!(strip_prefix("Bearer é≠x", "Bearer "), "é≠x");
}

#[test]
fn decimal_integers_are_read() {
    assert_eq!(parse_i64("900"), Some(900));
    assert_eq!(parse_i64("0"), Some(0));
    assert_eq!(parse_i64("007"), Some(7));
    assert_eq!(parse_i64("+7"), Some(7));
    assert_eq!(parse_i64("-5"), Some(-5));
    assert_eq!(parse_i64("-0"), Some(0));
}

#[test]
fn the_limits_of_i64_are_read_and_what_lies_beyond_is_not() {
    assert_eq!(parse_i64("9223372036854775807"), Some(i64::MAX));
    assert_eq!(parse_i64("-9223372036854775808"), Some(i64::MIN));
    assert_eq!(parse_i64("9223372036854775808"), None);
    assert_eq!(parse_i64("-9223372036854775809"), None);
    assert_eq!(parse_i64("99999999999999999999999"), None);
}

#[test]
fn other_texts_are_no_integers() {
    assert_eq!(parse_i64(""), None);
    assert_eq!(parse_i64("-"), None);
    assert_eq!(parse_i64("+"), None);
    assert_eq!(parse_i64("12a"), None);
    assert_eq!(parse_i64(" 5"), None);
    assert_eq!(parse_i64("5 "), None);
    assert_eq!(parse_i64("1.5"), None);
    assert_eq!(parse_i64("--5"), None);
    assert_eq!(parse_i64("٣"), None);
}

#[test]
fn decimal_reading_agrees_with_the_standard_library() {
    let samples = [
        "1", "-1", "+1", "10", "0000", "-0001", "123456789", "9223372036854775806", "x", "1x",
        "+-1", "9223372036854775807", "18446744073709551616", "",
    ];
    for text in samples {
        assert_eq!(parse_i64(text), text.parse::<i64>().ok());
    }
}
