use realconsole::text::{chars_equal, contains, ends_with, starts_with, trim_chars, u64_to_string};

fn cs(s: &str) -> Vec<char> {
    s.chars().collect()
}

#[test]
fn text_search_helpers() {
    assert!(contains(&cs("hello world"), &cs("o w")));
    assert!(!contains(&cs("hello"), &cs("xyz")));
    assert!(starts_with(&cs("hello"), &cs("he")));
    assert!(ends_with(&cs("hello"), &cs("lo")));
    assert!(chars_equal(&cs("a"), &cs("a")));
    assert!(!chars_equal(&cs("a"), &cs("ab")));
}

#[test]
fn text_trim_and_numbers() {
    assert_eq!(trim_chars(&cs("  a b \t\n")), cs("a b"));
    assert_eq!(u64_to_string(0), "0");
    assert_eq!(u64_to_string(18446744073709551615), "18446744073709551615");
}
