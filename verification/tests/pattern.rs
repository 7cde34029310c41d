use kaoruko::pattern::{sanitize, strip, WORD_PATTERN};
use regex::Regex;

fn some(text: &str) -> Option<String> {
    Some(text.to_string())
}

#[test]
fn the_word_pattern_is_the_class_of_characters_that_no_word_holds() {
    assert_eq!(WORD_PATTERN, "[^a-z-' ]");
    assert!(Regex::new(WORD_PATTERN).is_ok());
}

#[test]
fn sanitize_keeps_word_characters_only() {
    assert_eq!(sanitize("Hello-World's 2nd"), some("ello-orld's nd"));
    assert_eq!(sanitize("plain"), some("plain"));
    assert_eq!(sanitize("ABC123"), some(""));
    assert_eq!(sanitize(""), some(""));
    assert_eq!(sanitize("a—b"), some("ab"));
    assert_eq!(sanitize("ice cream"), some("ice cream"));
}

#[test]
fn strip_takes_out_what_the_pattern_matches() {
    assert_eq!(strip(Regex::new("[0-9]+"), "a1b22c333"), some("abc"));
    assert_eq!(strip(Regex::new("x"), "abc"), some("abc"));
    assert_eq!(strip(Regex::new("b"), ""), some(""));
    assert_eq!(strip(Regex::new(".*"), "abc"), some(""));
}

#[test]
fn strip_with_a_pattern_that_did_not_compile_gives_nothing() {
    assert_eq!(strip(Regex::new("a("), "abc"), None);
    assert_eq!(strip(Regex::new("[z-a]"), "abc"), None);
}
