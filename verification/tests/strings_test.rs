use watchdog::strings::{
    contains_text, equal_ignoring_ascii_case, int_to_string, is_whitespace, split_char,
    split_whitespace, str_eq,
};

#[test]
fn int_to_string_writes_decimal() {
    assert_eq!(int_to_string(0), "0");
    assert_eq!(int_to_string(7), "7");
    assert_eq!(int_to_string(51000), "51000");
    assert_eq!(int_to_string(-42), "-42");
    assert_eq!(int_to_string(i64::MIN), "-9223372036854775808");
    assert_eq!(int_to_string(i64::MAX), "9223372036854775807");
}

#[test]
fn split_whitespace_finds_words() {
    assert_eq!(split_whitespace("-port 50005"), vec!["-port", "50005"]);
    assert_eq!(split_whitespace("  a\t b\n"), vec!["a", "b"]);
    assert!(split_whitespace("   ").is_empty());
    assert!(split_whitespace("").is_empty());
    assert_eq!(split_whitespace("x\u{3000}y"), vec!["x", "y"]);
}

#[test]
fn split_char_keeps_empty_pieces() {
    assert_eq!(split_char("Basic abc", ' '), vec!["Basic", "abc"]);
    assert_eq!(split_char("a::b", ':'), vec!["a", "", "b"]);
    assert_eq!(split_char("", ':'), vec![""]);
    assert_eq!(split_char(":", ':'), vec!["", ""]);
}

#[test]
fn ascii_case_and_infix() {
    assert!(equal_ignoring_ascii_case("NAME", "name"));
    assert!(equal_ignoring_ascii_case("Authorization", "authorization"));
    assert!(!equal_ignoring_ascii_case("name", "names"));
    assert!(!equal_ignoring_ascii_case("é", "É"));
    assert!(contains_text("/index?pwd=1", "/index"));
    assert!(!contains_text("/ind", "/index"));
    assert!(contains_text("abc", ""));
    assert!(str_eq("abc", "abc"));
    assert!(!str_eq("abc", "abd"));
    assert!(is_whitespace(' '));
    assert!(is_whitespace('\u{a0}'));
    assert!(!is_whitespace('x'));
}
