use mcp_manager::text::{concat2, concat3, join_strings, str_eq, str_has_prefix, str_has_suffix, trim_copy};

#[test]
fn trim_removes_surrounding_whitespace_only() {
    assert_eq!(trim_copy("  a b \n"), "a b");
    assert_eq!(trim_copy("\t\r\nx\r\n"), "x");
    assert_eq!(trim_copy("inner  space"), "inner  space");
}

#[test]
fn trim_of_all_whitespace_is_empty() {
    assert_eq!(trim_copy("   \n\t"), "");
    assert_eq!(trim_copy(""), "");
}

#[test]
fn trim_handles_unicode_whitespace() {
    assert_eq!(trim_copy("\u{3000}x\u{a0}"), "x");
    assert_eq!(trim_copy("\u{2028}\u{2029}"), "");
}

#[test]
fn join_inserts_separator_between_entries() {
    let parts = vec![String::from("a"), String::from("b"), String::from("c")];
    assert_eq!(join_strings(&parts, "\n"), "a\nb\nc");
    assert_eq!(join_strings(&parts, " "), "a b c");
    let one = vec![String::from("solo")];
    assert_eq!(join_strings(&one, "\n"), "solo");
    let none: Vec<String> = Vec::new();
    assert_eq!(join_strings(&none, "\n"), "");
}

#[test]
fn concatenation() {
    assert_eq!(concat2("ab", "cd"), "abcd");
    assert_eq!(concat3("a", "b", "c"), "abc");
    assert_eq!(concat3("Server ", "x", " not found"), "Server x not found");
}

#[test]
fn prefix_suffix_and_equality_checks() {
    assert!(str_has_prefix("data: x", "data: "));
    assert!(!str_has_prefix("data:x", "data: "));
    assert!(str_has_prefix("abc", ""));
    assert!(!str_has_prefix("ab", "abc"));
    assert!(str_has_suffix("/usr/bin/npx", "/npx"));
    assert!(!str_has_suffix("npx", "/npx"));
    assert!(str_eq("same", "same"));
    assert!(!str_eq("same", "samey"));
}
