use ytcli::paths::{components, file_name, join_path, same_path};
use ytcli::text::{decimal_string, join_strings, parse_usize, text_le_exec, trim};

#[test]
fn paths_join_and_compare_like_pathbuf() {
    assert_eq!(join_path("/a", "b"), "/a/b");
    assert_eq!(join_path("/a/", "b"), "/a/b");
    assert_eq!(join_path("/a", "/b"), "/b");
    assert_eq!(join_path("", "b"), "b");
    assert!(same_path("/a//b/", "/a/b"));
    assert!(same_path("/a/./b", "/a/b"));
    assert!(!same_path("/a/../b", "/b"));
    assert_eq!(file_name("/usr/bin/ytcli"), Some("ytcli".to_string()));
    assert_eq!(file_name("/usr/.."), None);
    assert_eq!(file_name("/"), None);
    let (absolute, _, parts) = components("/x/y");
    assert!(absolute);
    assert_eq!(parts, vec!["x".to_string(), "y".to_string()]);
}

#[test]
fn text_helpers() {
    assert_eq!(trim("  a b \n"), "a b");
    assert_eq!(decimal_string(0), "0");
    assert_eq!(decimal_string(18446744073709551615), "18446744073709551615");
    assert_eq!(parse_usize("42"), Some(42));
    assert_eq!(parse_usize("+42"), Some(42));
    assert_eq!(parse_usize("4x"), None);
    assert_eq!(parse_usize(""), None);
    assert_eq!(join_strings(&vec!["a".to_string(), "b".to_string()], ", "), "a, b");
    assert!(text_le_exec("ab", "abc"));
    assert!(!text_le_exec("b", "abc"));
    assert!(text_le_exec("", ""));
}
