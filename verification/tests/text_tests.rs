use problems_filter::text::contains_term;
use problems_filter::text::join_all;
use problems_filter::text::u64_to_string;

#[test]
fn test_contains_term_basic() {
    assert!(contains_term("hello world", "lo wo"));
    assert!(contains_term("hello world", ""));
    assert!(contains_term("abc", "abc"));
    assert!(!contains_term("abc", "abcd"));
    assert!(!contains_term("hello world", "worlds"));
    assert!(!contains_term("", "a"));
}

#[test]
fn test_contains_term_multibyte() {
    assert!(contains_term("déjà vu", "éjà"));
    assert!(!contains_term("déjà vu", "eja"));
}

#[test]
fn test_u64_to_string_values() {
    assert_eq!(u64_to_string(0), "0");
    assert_eq!(u64_to_string(7), "7");
    assert_eq!(u64_to_string(10), "10");
    assert_eq!(u64_to_string(905), "905");
    assert_eq!(u64_to_string(4294967295), "4294967295");
}

#[test]
fn test_join_all_separator() {
    let parts: Vec<String> = vec!["a".to_string(), "b".to_string(), "c".to_string()];
    assert_eq!(join_all(&parts, ", "), "a, b, c");
    let one: Vec<String> = vec!["solo".to_string()];
    assert_eq!(join_all(&one, ", "), "solo");
    let none: Vec<String> = vec![];
    assert_eq!(join_all(&none, ", "), "");
}
