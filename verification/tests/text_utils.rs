use quake_log_parser::text::{
    dec_string, find_alpha, find_char, find_str, parse_u32, rfind_str, starts_with_str, str_eq,
    trim,
};

#[test]
fn parse_u32_accepts_digit_runs() {
    assert_eq!(parse_u32("0"), Some(0));
    assert_eq!(parse_u32("123"), Some(123));
    assert_eq!(parse_u32("4294967295"), Some(u32::MAX));
}

#[test]
fn parse_u32_rejects_bad_input() {
    assert_eq!(parse_u32(""), None);
    assert_eq!(parse_u32("12a"), None);
    assert_eq!(parse_u32("-3"), None);
    assert_eq!(parse_u32("4294967296"), None);
    assert_eq!(parse_u32("99999999999999999999"), None);
}

#[test]
fn trim_strips_ascii_whitespace() {
    assert_eq!(trim("  hello \t\r\n"), "hello");
    assert_eq!(trim("hello"), "hello");
    assert_eq!(trim(" \t "), "");
    assert_eq!(trim(""), "");
    assert_eq!(trim("a b"), "a b");
}

#[test]
fn string_searching() {
    assert_eq!(find_alpha(" 20:34 x: 1"), Some(7));
    assert_eq!(find_alpha(" 12:00 --"), None);
    assert_eq!(find_char("key: value", ':'), Some(3));
    assert_eq!(find_char("no colon", ':'), None);
    assert_eq!(find_str("a killed b by MOD_X", "by "), Some(11));
    assert_eq!(find_str("abc", "zz"), None);
    assert_eq!(rfind_str("x by y by z", "by "), Some(7));
    assert!(starts_with_str("<world> killed Zeh", "<world> killed"));
    assert!(!starts_with_str("Zeh killed Zeh", "<world> killed"));
}

#[test]
fn str_eq_compares_contents() {
    assert!(str_eq("abc", "abc"));
    assert!(!str_eq("abc", "abd"));
    assert!(!str_eq("abc", "ab"));
    assert!(str_eq("", ""));
}

#[test]
fn decimal_rendering() {
    assert_eq!(dec_string(0), "0");
    assert_eq!(dec_string(9), "9");
    assert_eq!(dec_string(10), "10");
    assert_eq!(dec_string(90210), "90210");
}
