use rustools_mcp::text::{
    contains_str, is_blank, join_strings, parse_unsigned_exec, render_decimal, replace_str, split_char_str, str_le,
    take_bytes_str, trim_str, utf8_len_capped,
};

#[test]
fn replacing_separators() {
    assert_eq!(replace_str("vec::Vec::push", "::", "/"), "vec/Vec/push");
    assert_eq!(replace_str(":::", "::", "/"), "/:");
    assert_eq!(replace_str("a/b", "::", "/"), "a/b");
    assert_eq!(replace_str(&replace_str("x::::y", "::", "/"), "::", "/"), replace_str("x::::y", "::", "/"));
}

#[test]
fn trimming_and_blanks() {
    assert_eq!(trim_str("  a b \n"), "a b");
    assert!(is_blank(" \t\n"));
    assert!(!is_blank(" x "));
}

#[test]
fn numbers() {
    assert_eq!(render_decimal(0), "0");
    assert_eq!(render_decimal(1234), "1234");
    assert_eq!(parse_unsigned_exec("42", 100), Some(42));
    assert_eq!(parse_unsigned_exec("420", 100), None);
    assert_eq!(parse_unsigned_exec("4x", 100), None);
}

#[test]
fn splitting_joining_and_ordering() {
    assert_eq!(split_char_str("a,,b", ','), vec!["a", "", "b"]);
    assert_eq!(join_strings(&vec!["a".to_string(), "b".to_string()], ", "), "a, b");
    assert!(contains_str("serde_json", "de_j"));
    assert!(str_le("alloc", "std"));
    assert!(!str_le("std", "alloc"));
}

#[test]
fn utf8_measures() {
    assert_eq!(utf8_len_capped("héllo", 100), 6);
    assert_eq!(utf8_len_capped("héllo", 3), 3);
    assert_eq!(take_bytes_str("héllo", 3), "hé");
}
