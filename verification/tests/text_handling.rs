use gg_runtime::text::{
    i64_to_string, parse_i64, parse_u64, split_lines, split_whitespace, starts_with, str_eq,
    str_lt, trim_str, u64_to_string,
};

#[test]
fn trim_removes_unicode_white_space_at_both_ends() {
    assert_eq!(trim_str("  \t hello world \n"), "hello world");
    assert_eq!(trim_str("\u{3000}x\u{a0}"), "x");
    assert_eq!(trim_str("   "), "");
    assert_eq!(trim_str(""), "");
}

#[test]
fn split_whitespace_finds_words() {
    assert_eq!(
        split_whitespace("  ls   -la\t/tmp "),
        vec!["ls".to_string(), "-la".to_string(), "/tmp".to_string()]
    );
    assert!(split_whitespace(" \n ").is_empty());
    assert_eq!(split_whitespace("echo"), vec!["echo".to_string()]);
}

#[test]
fn split_lines_follows_str_lines() {
    let expected: Vec<String> = "foo\nbar\n\r\nbaz\r".lines().map(str::to_string).collect();
    assert_eq!(split_lines("foo\nbar\n\r\nbaz\r"), expected);
    assert_eq!(split_lines("a\r\nb\n"), vec!["a".to_string(), "b".to_string()]);
    assert!(split_lines("").is_empty());
    assert_eq!(split_lines("\n"), vec!["".to_string()]);
    assert_eq!(split_lines("x\n\ny"), vec!["x".to_string(), "".to_string(), "y".to_string()]);
}

#[test]
fn parse_u64_matches_std() {
    for s in ["0", "+5", "42", "18446744073709551615", "18446744073709551616", "", "+", "-1", "1a", " 1"] {
        assert_eq!(parse_u64(s), s.parse::<u64>().ok(), "input {s:?}");
    }
}

#[test]
fn parse_i64_matches_std() {
    for s in [
        "0",
        "-0",
        "+7",
        "-42",
        "9223372036854775807",
        "9223372036854775808",
        "-9223372036854775808",
        "-9223372036854775809",
        "-",
        "",
        "--1",
    ] {
        assert_eq!(parse_i64(s), s.parse::<i64>().ok(), "input {s:?}");
    }
}

#[test]
fn decimal_text_of_integers() {
    assert_eq!(u64_to_string(0), "0");
    assert_eq!(u64_to_string(1234), "1234");
    assert_eq!(u64_to_string(u64::MAX), u64::MAX.to_string());
    assert_eq!(i64_to_string(-42), "-42");
    assert_eq!(i64_to_string(i64::MIN), i64::MIN.to_string());
    assert_eq!(i64_to_string(7), "7");
}

#[test]
fn comparisons_of_strings() {
    assert!(str_eq("abc", "abc"));
    assert!(!str_eq("abc", "abd"));
    assert!(starts_with("gg_process_run", "gg_process_"));
    assert!(!starts_with("gg_proc", "gg_process_"));
    assert!(str_lt("Anthropic", "Codex"));
    assert!(!str_lt("Codex", "Codex"));
    assert!(str_lt("Code", "Codex"));
    assert!(!str_lt("b", "ab"));
}
