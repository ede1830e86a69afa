use zos_server::text::{
    contains_str, decimal_string, ends_with, join_strings, parse_u32_str, parses_as_i64_str, remove_all_str,
    signed_decimal_string, split_str, split_words, str_byte_prefix, trim_start_char_str, trim_str, IntErrorKind,
};

#[test]
fn trimming_and_words() {
    assert_eq!(trim_str("\u{3000} a b \n"), "a b");
    assert_eq!(split_words("  LOAD_SO\tx  y "), vec!["LOAD_SO", "x", "y"]);
    assert_eq!(trim_start_char_str("//a/b", '/'), "a/b");
}

#[test]
fn splitting_keeps_empty_pieces() {
    assert_eq!(split_str("a//b/", '/'), vec!["a", "", "b", ""]);
    assert_eq!(split_str("", '/'), vec![""]);
    assert_eq!(join_strings(&vec!["a".to_string(), "b".to_string()], ", "), "a, b");
}

#[test]
fn numbers() {
    assert_eq!(decimal_string(0), "0");
    assert_eq!(decimal_string(18446744073709551615), "18446744073709551615");
    assert_eq!(signed_decimal_string(i64::MIN), "-9223372036854775808");
    assert_eq!(parse_u32_str("+42"), Ok(42));
    assert_eq!(parse_u32_str("4294967296"), Err(IntErrorKind::PosOverflow));
    assert_eq!(parse_u32_str(""), Err(IntErrorKind::Empty));
    assert_eq!(parse_u32_str("-1"), Err(IntErrorKind::InvalidDigit));
    assert!(parses_as_i64_str("-9223372036854775808"));
    assert!(!parses_as_i64_str("9223372036854775808"));
    assert!(parses_as_i64_str("+7"));
    assert!(!parses_as_i64_str("-"));
    assert!(!parses_as_i64_str("1x"));
}

#[test]
fn substrings() {
    assert!(contains_str("abc_ZNdef", "_ZN"));
    assert!(!contains_str("ab", "abc"));
    assert!(contains_str("ab", ""));
    assert!(ends_with("lib.so", ".so"));
    assert!(!ends_with("so", ".so"));
    assert_eq!(remove_all_str("xaxaax", "xa"), "ax");
    assert_eq!(str_byte_prefix("0xABCDEF99", 8).as_deref(), Some("0xABCDEF"));
    assert_eq!(str_byte_prefix("héllo", 2), None);
    assert_eq!(str_byte_prefix("héllo", 3).as_deref(), Some("hé"));
    assert_eq!(str_byte_prefix("short", 8), None);
}
