use session_relay::text::{str_eq, strip_line_ending};

#[test]
fn string_equality_by_characters() {
    assert!(str_eq("USER", "USER"));
    assert!(str_eq("", ""));
    assert!(!str_eq("USER", "USES"));
    assert!(!str_eq("USER", "USE"));
    assert!(!str_eq("", "x"));
}

#[test]
fn line_endings_are_stripped_once() {
    assert_eq!(strip_line_ending("abc\n"), "abc");
    assert_eq!(strip_line_ending("abc\r\n"), "abc");
    assert_eq!(strip_line_ending("abc"), "abc");
    assert_eq!(strip_line_ending("\n"), "");
    assert_eq!(strip_line_ending("abc\n\n"), "abc\n");
    assert_eq!(strip_line_ending("abc\r"), "abc");
}
