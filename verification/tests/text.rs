use logdb::text;
use logdb::text::{
    eq_ignore_ascii_case, join, parse_unsigned, rsplit_once, split_once, str_eq,
    strip_prefix, take_chars, to_ascii_lowercase, trim, trim_char, trim_end_char, u64_to_string,
};

#[test]
fn trim_removes_unicode_whitespace() {
    assert_eq!(trim("  hello \t\n"), "hello");
    assert_eq!(trim("\u{3000}wide\u{00a0}"), "wide");
    assert_eq!(trim("   "), "");
    assert_eq!(trim("a b"), "a b");
}

#[test]
fn trim_char_and_trim_end_char() {
    assert_eq!(trim_char("\"quoted\"", '"'), "quoted");
    assert_eq!(trim_char("''x'", '\''), "x");
    assert_eq!(trim_end_char("http://h:8080///", '/'), "http://h:8080");
    assert_eq!(trim_end_char("/", '/'), "");
}

#[test]
fn split_once_takes_the_first_separator() {
    assert_eq!(
        split_once("a|b|c", '|'),
        Some(("a".to_string(), "b|c".to_string()))
    );
    assert_eq!(split_once("abc", '|'), None);
    assert_eq!(split_once("|", '|'), Some((String::new(), String::new())));
}

#[test]
fn rsplit_once_takes_the_last_separator() {
    assert_eq!(
        rsplit_once("a.b.c", '.'),
        Some(("a.b".to_string(), "c".to_string()))
    );
    assert_eq!(rsplit_once("abc", '.'), None);
}

#[test]
fn split_then_concat_gives_back_the_text() {
    let s = "key=value=more";
    let (a, b) = split_once(s, '=').unwrap();
    assert_eq!(format!("{a}={b}"), s);
    let (c, d) = rsplit_once(s, '=').unwrap();
    assert_eq!(format!("{c}={d}"), s);
}

#[test]
fn parse_unsigned_follows_str_parse() {
    assert_eq!(parse_unsigned("42", u64::MAX), Some(42));
    assert_eq!(parse_unsigned("+7", u64::MAX), Some(7));
    assert_eq!(parse_unsigned("", u64::MAX), None);
    assert_eq!(parse_unsigned("+", u64::MAX), None);
    assert_eq!(parse_unsigned("-1", u64::MAX), None);
    assert_eq!(parse_unsigned(" 1", u64::MAX), None);
    assert_eq!(parse_unsigned("1x", u64::MAX), None);
    assert_eq!(parse_unsigned("256", 255), None);
    assert_eq!(parse_unsigned("255", 255), Some(255));
    assert_eq!(parse_unsigned("18446744073709551615", u64::MAX), Some(u64::MAX));
    assert_eq!(parse_unsigned("18446744073709551616", u64::MAX), None);
    assert_eq!(parse_unsigned("007", u64::MAX), Some(7));
}

#[test]
fn decimal_text_round_trips() {
    for n in [0u64, 1, 9, 10, 14, 4096, 1_000_000, u64::MAX] {
        let s = u64_to_string(n);
        assert_eq!(s, n.to_string());
        assert_eq!(parse_unsigned(&s, u64::MAX), Some(n));
    }
}

#[test]
fn join_and_concat() {
    let parts = vec!["a".to_string(), "b".to_string(), "c".to_string()];
    assert_eq!(join(&parts, " AND "), "a AND b AND c");
    assert_eq!(join(&Vec::new(), ","), "");
    assert_eq!(text::concat("ab", "cd"), "abcd");
}

#[test]
fn prefixes_case_and_equality() {
    assert_eq!(strip_prefix("Bearer tok", "Bearer "), Some("tok".to_string()));
    assert_eq!(strip_prefix("bearer tok", "Bearer "), None);
    assert!(eq_ignore_ascii_case("WiNdOwS", "windows"));
    assert!(!eq_ignore_ascii_case("windows", "window"));
    assert_eq!(to_ascii_lowercase("MacOS É"), "macos É");
    assert!(str_eq("x", "x"));
    assert!(!str_eq("x", "y"));
    assert_eq!(take_chars("héllo", 2), "hé");
    assert_eq!(take_chars("ab", 10), "ab");
}
