use xfprintd_pam_core::text::{
    contains_str, find_line_end, range_eq, rfind_char, split_lines, starts_with_str, str_eq,
    trim_end_str, trim_str, trimmed_range,
};

#[test]
fn substring_search() {
    assert!(contains_str("hello world", "lo wo"));
    assert!(contains_str("abc", ""));
    assert!(contains_str("abc", "abc"));
    assert!(!contains_str("abc", "abcd"));
    assert!(!contains_str("", "x"));
}

#[test]
fn prefix_and_equality() {
    assert!(starts_with_str("/etc/pam.d/sudo", "/etc/pam.d"));
    assert!(!starts_with_str("/etc", "/etc/pam.d"));
    assert!(str_eq("same", "same"));
    assert!(!str_eq("same", "samey"));
}

#[test]
fn trimming() {
    assert_eq!(trim_str("  padded\t"), "padded");
    assert_eq!(trim_str("none"), "none");
    assert_eq!(trim_str(" \t "), "");
    assert_eq!(trim_end_str("tail  \n"), "tail");
    assert_eq!(trim_end_str("  head"), "  head");
}

#[test]
fn line_splitting() {
    assert_eq!(split_lines("a\nb\nc"), vec!["a", "b", "c"]);
    assert_eq!(split_lines("a\nb\n"), vec!["a", "b"]);
    assert_eq!(split_lines("\n"), vec![""]);
    assert!(split_lines("").is_empty());
}

#[test]
fn searching_positions() {
    assert_eq!(rfind_char("/a/b/c", '/'), Some(4));
    assert_eq!(rfind_char("abc", '/'), None);
    assert_eq!(find_line_end("ab\ncd", 0, 5), 2);
    assert_eq!(find_line_end("ab\ncd", 3, 5), 5);
    assert!(range_eq("xabcx", 1, 4, "abc"));
    assert!(!range_eq("xabcx", 1, 4, "abd"));
    assert_eq!(trimmed_range("  mid  ", 0, 7), (2, 5));
}
