use nayan::text::{
    concat3, contains, decimal_i64, ends_with, eq_ignore_ascii_case, first_chars, first_line,
    is_blank, join_strings, join_with, parse_i64, starts_with, trim, trim_char,
    trim_end, trim_end_char,
};

#[test]
fn trims_unicode_whitespace() {
    assert_eq!(trim("\u{3000} 你好 \t\n"), "你好");
    assert_eq!(trim_end("  a b  \r\n"), "  a b");
    assert!(is_blank(" \u{a0}\u{2028}\t"));
    assert!(!is_blank(" x "));
    assert_eq!(trim_char("//a/b//", '/'), "a/b");
    assert_eq!(trim_end_char("https://x/v1///", '/'), "https://x/v1");
}

#[test]
fn searches() {
    assert!(contains("hello world", "o w"));
    assert!(contains("abc", ""));
    assert!(!contains("", "a"));
    assert!(starts_with("__ERR__x", "__ERR__"));
    assert!(ends_with("shot.png", ".png"));
    assert!(!ends_with("png", ".png"));
}

#[test]
fn ascii_case_comparison() {
    assert!(eq_ignore_ascii_case("iTerm2", "ITERM2"));
    assert!(!eq_ignore_ascii_case("Ä", "ä"));
}

#[test]
fn decimals_and_parsing() {
    assert_eq!(decimal_i64(0), "0");
    assert_eq!(decimal_i64(-25209), "-25209");
    assert_eq!(decimal_i64(i64::MIN), "-9223372036854775808");
    assert_eq!(decimal_i64(i64::MAX), "9223372036854775807");
    assert_eq!(parse_i64("42"), Some(42));
    assert_eq!(parse_i64("+7"), Some(7));
    assert_eq!(parse_i64("-9223372036854775808"), Some(i64::MIN));
    assert_eq!(parse_i64("9223372036854775808"), None);
    assert_eq!(parse_i64(""), None);
    assert_eq!(parse_i64("-"), None);
    assert_eq!(parse_i64("1a"), None);
    assert_eq!(parse_i64(" 1"), None);
    assert_eq!(parse_i64("007"), Some(7));
}

#[test]
fn pieces_and_joins() {
    assert_eq!(first_line(""), None);
    assert_eq!(first_line("a\r\nb"), Some("a".to_string()));
    assert_eq!(first_line("\nb"), Some(String::new()));
    assert_eq!(first_chars("漢字かな", 2), "漢字");
    assert_eq!(first_chars("ab", 5), "ab");
    assert_eq!(join_strings(&vec!["a".to_string(), "b".to_string()], '+'), "a+b");
    assert_eq!(join_with(&vec!["x = ?".to_string(), "y = ?".to_string()], " AND "), "x = ? AND y = ?");
    assert_eq!(join_with(&vec![], " AND "), "");
    assert_eq!(concat3("a", "b", "c"), "abc");
}
