use muxrs::text::{
    chars_of, decimal_of, last_segment_of, lines, parse_digits, replace_all, same_text,
    str_contains,
};

#[test]
fn replace_all_like_str_replace() {
    for (s, p, r) in [
        ("aaa", "a", "b"),
        ("abc", "", "-"),
        ("aaaa", "aa", "x"),
        ("abcabc", "bc", ""),
        ("", "", "x"),
        ("hello", "z", "y"),
        ("ééé", "é", "e"),
    ] {
        assert_eq!(replace_all(s, p, r), s.replace(p, r));
    }
}

#[test]
fn lines_like_str_lines() {
    for s in ["a\nb\r\nc", "a\n", "", "\n", "a\r", "x\n\ny", "\r\n"] {
        let expect: Vec<String> = s.lines().map(|l| l.to_string()).collect();
        assert_eq!(lines(s), expect);
    }
}

#[test]
fn decimal_and_back() {
    assert_eq!(decimal_of(0), "0");
    assert_eq!(decimal_of(42), "42");
    assert_eq!(decimal_of(usize::MAX), usize::MAX.to_string());
    assert_eq!(parse_digits("123"), Some(123));
    assert_eq!(parse_digits("007"), Some(7));
    assert_eq!(parse_digits(""), None);
    assert_eq!(parse_digits("12a"), None);
    assert_eq!(parse_digits("+1"), None);
    assert_eq!(parse_digits("99999999999999999999999999"), None);
    for n in [0usize, 9, 10, 1234, usize::MAX] {
        assert_eq!(parse_digits(&decimal_of(n)), Some(n));
    }
}

#[test]
fn small_helpers() {
    assert_eq!(chars_of("añb"), vec!['a', 'ñ', 'b']);
    assert!(same_text("abc", "abc"));
    assert!(!same_text("abc", "abd"));
    assert_eq!(last_segment_of("/a/b/c"), "c");
    assert_eq!(last_segment_of("/a/b/"), "");
    assert_eq!(last_segment_of("name"), "name");
    assert!(str_contains("could not find repository at '/x'", "could not find repository at"));
    assert!(!str_contains("abc", "abd"));
    assert!(str_contains("abc", ""));
}

#[test]
fn replacing_a_pattern_by_itself_changes_nothing() {
    for (s, p) in [("abab", "ab"), ("aaa", "aa"), ("", "x"), ("xyz", "q")] {
        assert_eq!(replace_all(s, p, p), s);
    }
}
