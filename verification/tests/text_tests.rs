use ssh_channels_hub::text::{
    dec_string_u64, join_from, parse_u16, parse_u64, split_lines, split_tokens, str_eq,
    str_eq_ignore_case, str_starts_with, trim_str,
};

#[test]
fn test_parse_u64_grammar() {
    assert_eq!(parse_u64("0"), Some(0));
    assert_eq!(parse_u64("42"), Some(42));
    assert_eq!(parse_u64("+42"), Some(42));
    assert_eq!(parse_u64("007"), Some(7));
    assert_eq!(parse_u64("18446744073709551615"), Some(u64::MAX));
    assert_eq!(parse_u64("18446744073709551616"), None);
    assert_eq!(parse_u64(""), None);
    assert_eq!(parse_u64("+"), None);
    assert_eq!(parse_u64("-1"), None);
    assert_eq!(parse_u64("4 2"), None);
    assert_eq!(parse_u64("42x"), None);
}

#[test]
fn test_parse_u16_range() {
    assert_eq!(parse_u16("65535"), Some(65535));
    assert_eq!(parse_u16("65536"), None);
    assert_eq!(parse_u16("80"), Some(80));
}

#[test]
fn test_dec_string_renders_decimal() {
    assert_eq!(dec_string_u64(0), "0");
    assert_eq!(dec_string_u64(9), "9");
    assert_eq!(dec_string_u64(10), "10");
    assert_eq!(dec_string_u64(90210), "90210");
    assert_eq!(dec_string_u64(u64::MAX), "18446744073709551615");
}

#[test]
fn test_split_lines_like_std() {
    let lines = split_lines("a\nb\r\nc");
    assert_eq!(lines, vec!["a", "b", "c"]);
    assert_eq!(split_lines(""), Vec::<String>::new());
    assert_eq!(split_lines("one\n"), vec!["one"]);
    assert_eq!(split_lines("\n"), vec![""]);
}

#[test]
fn test_trim_and_comparisons() {
    assert_eq!(trim_str("  a b \t"), "a b");
    assert_eq!(trim_str(""), "");
    assert_eq!(trim_str(" \r\n"), "");
    assert!(str_eq("abc", "abc"));
    assert!(!str_eq("abc", "abd"));
    assert!(str_eq_ignore_case("HostName", "hostname"));
    assert!(!str_eq_ignore_case("port", "part"));
    assert!(str_starts_with("Host myserver", "Host "));
    assert!(!str_starts_with("Hos", "Host "));
}

#[test]
fn test_tokens_and_join() {
    let toks = split_tokens("  one   two  three ");
    assert_eq!(toks, vec!["one", "two", "three"]);
    assert_eq!(join_from(&toks, 1), "two three");
    assert_eq!(join_from(&toks, 0), "one two three");
    assert_eq!(join_from(&toks, 3), "");
}
