use ad_nope::text::{decimal, lines_of, str_contains, str_eq, str_lt};

#[test]
fn decimal_digits() {
    assert_eq!(decimal(0), "0");
    assert_eq!(decimal(7), "7");
    assert_eq!(decimal(1234567), "1234567");
    assert_eq!(decimal(u64::MAX), "18446744073709551615");
}

#[test]
fn text_comparisons() {
    assert!(str_eq("abc", "abc"));
    assert!(!str_eq("abc", "abd"));
    assert!(!str_eq("abc", "ab"));
    assert!(str_lt("a", "b"));
    assert!(str_lt("a", "ab"));
    assert!(str_lt("B", "a"));
    assert!(!str_lt("b", "a"));
    assert!(!str_lt("a", "a"));
    assert!(str_lt("", "a"));
    assert!(str_contains("debug,hickory_server=info", "hickory_server"));
    assert!(!str_contains("debug", "hickory_server"));
    assert!(str_contains("x", ""));
}

#[test]
fn lines_like_str_lines() {
    let text = "foo\r\nbar\n\nbaz\r";
    let expected: Vec<&str> = text.lines().collect();
    assert_eq!(lines_of(text), expected);
    assert_eq!(lines_of("a\nb\n"), vec!["a", "b"]);
    assert_eq!(lines_of(""), Vec::<&str>::new());
    assert_eq!(lines_of("\n"), vec![""]);
    assert_eq!(lines_of("x\r\r\ny"), vec!["x\r", "y"]);
}
