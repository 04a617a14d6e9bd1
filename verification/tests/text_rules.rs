use ambient_context::text::{
    contains, decimal_string, parse_i32, parse_u32, trim, zero_padded_string,
};

#[test]
fn decimal_notation() {
    assert_eq!(decimal_string(0), "0");
    assert_eq!(decimal_string(7), "7");
    assert_eq!(decimal_string(10), "10");
    assert_eq!(decimal_string(12345), "12345");
    assert_eq!(decimal_string(u64::MAX), "18446744073709551615");
}

#[test]
fn trim_removes_unicode_white_space() {
    assert_eq!(trim("  42\n"), "42");
    assert_eq!(trim("\t\u{a0}a b\u{3000}"), "a b");
    assert_eq!(trim("   "), "");
    assert_eq!(trim(""), "");
    assert_eq!(trim("x"), "x");
}

#[test]
fn parse_u32_like_std() {
    for s in ["0", "42", "+7", "4294967295", "4294967296", "", "+", "-1", "1a", " 1", "007"] {
        assert_eq!(parse_u32(s), s.parse::<u32>().ok(), "input {s:?}");
    }
}

#[test]
fn parse_i32_like_std() {
    for s in [
        "0", "1", "-1", "+1", "2147483647", "2147483648", "-2147483648", "-2147483649", "-",
        "+", "", "--1", "1-", "x",
    ] {
        assert_eq!(parse_i32(s), s.parse::<i32>().ok(), "input {s:?}");
    }
}

#[test]
fn contains_finds_substrings() {
    assert!(contains("hello world", "o w"));
    assert!(contains("abc", ""));
    assert!(contains("abc", "abc"));
    assert!(!contains("abc", "abcd"));
    assert!(!contains("abc", "cb"));
}

#[test]
fn zero_padding() {
    assert_eq!(zero_padded_string(5, 2), "05");
    assert_eq!(zero_padded_string(42, 2), "42");
    assert_eq!(zero_padded_string(123, 2), "123");
    assert_eq!(zero_padded_string(7, 4), "0007");
    assert_eq!(zero_padded_string(0, 0), "0");
}
