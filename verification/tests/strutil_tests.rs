use fuzz_init::strutil::{contains2, split2, str_eq, str_is_blank, str_starts_with, str_trim};

#[test]
fn string_equality_by_characters() {
    assert!(str_eq("abc", "abc"));
    assert!(!str_eq("abc", "abd"));
    assert!(!str_eq("abc", "ab"));
    assert!(str_eq("", ""));
}

#[test]
fn prefix_test() {
    assert!(str_starts_with("github:org/repo", "github:"));
    assert!(!str_starts_with("git:org", "github:"));
    assert!(str_starts_with("anything", ""));
    assert!(!str_starts_with("a", "ab"));
}

#[test]
fn blank_detection() {
    assert!(str_is_blank(""));
    assert!(str_is_blank(" \t\r\n"));
    assert!(!str_is_blank("  x  "));
}

#[test]
fn trimming_strips_edges_only() {
    assert_eq!(str_trim("  a b  "), "a b");
    assert_eq!(str_trim("ab"), "ab");
    assert_eq!(str_trim("   "), "");
}

#[test]
fn splitting_on_double_separator() {
    let parts = split2("a && b && c", '&', '&');
    assert_eq!(parts, vec!["a ".to_string(), " b ".to_string(), " c".to_string()]);
    assert_eq!(split2("abc", '&', '&'), vec!["abc".to_string()]);
    assert_eq!(split2("a&&&b", '&', '&'), vec!["a".to_string(), "&b".to_string()]);
    assert_eq!(
        split2("a&&&&b", '&', '&'),
        vec!["a".to_string(), "".to_string(), "b".to_string()]
    );
    assert!(contains2("x || y", '|', '|'));
    assert!(!contains2("x | y", '|', '|'));
}
