use xfprintd_pam_core::codec::{
    begin_mark, create_fenced_block, end_mark, insert_block_after_header, pam_header,
    remove_fenced_blocks, content_has_marker,
};

const BEGIN: &str = "# BEGIN xfprintd-gui";
const END: &str = "# END xfprintd-gui";

#[test]
fn markers_and_header() {
    assert_eq!(begin_mark(), "# BEGIN xfprintd-gui");
    assert_eq!(end_mark(), "# END xfprintd-gui");
    assert_eq!(pam_header(), "#%PAM-1.0");
}

#[test]
fn strip_no_block_normalizes_newline() {
    assert_eq!(remove_fenced_blocks("#%PAM-1.0\nauth line"), "#%PAM-1.0\nauth line\n");
    assert_eq!(remove_fenced_blocks("#%PAM-1.0\nauth line\n"), "#%PAM-1.0\nauth line\n");
}

#[test]
fn strip_empty_is_empty() {
    assert_eq!(remove_fenced_blocks(""), "");
}

#[test]
fn strip_single_block() {
    let content = format!("#%PAM-1.0\n{BEGIN}\nauth a\nauth b\n{END}\nauth keep\n");
    assert_eq!(remove_fenced_blocks(&content), "#%PAM-1.0\nauth keep\n");
}

#[test]
fn strip_multiple_blocks() {
    let content = format!("h\n{BEGIN}\na\n{END}\nmid\n{BEGIN}\nb\n{END}\ntail\n");
    assert_eq!(remove_fenced_blocks(&content), "h\nmid\ntail\n");
}

#[test]
fn strip_unterminated_block_drops_to_eof() {
    let content = format!("h\n{BEGIN}\na\nb\nc");
    assert_eq!(remove_fenced_blocks(&content), "h\n");
}

#[test]
fn strip_compares_markers_trimmed() {
    let content = format!("h\n   {BEGIN}  \na\n\t{END}\t\nkeep\n");
    assert_eq!(remove_fenced_blocks(&content), "h\nkeep\n");
}

#[test]
fn strip_handles_crlf_marker_lines() {
    let content = format!("h\n{BEGIN}\r\na\r\n{END}\r\nkeep\n");
    assert_eq!(remove_fenced_blocks(&content), "h\nkeep\n");
}

#[test]
fn strip_drops_stray_end_marker() {
    let content = format!("h\n{END}\nkeep\n");
    assert_eq!(remove_fenced_blocks(&content), "h\nkeep\n");
}

#[test]
fn fenced_block_layout() {
    assert_eq!(
        create_fenced_block("auth a\nauth b"),
        format!("{BEGIN}\nauth a\nauth b\n{END}\n")
    );
}

#[test]
fn insert_into_empty_synthesizes_header() {
    let out = insert_block_after_header(String::new(), "auth a");
    assert_eq!(out, format!("#%PAM-1.0\n{BEGIN}\nauth a\n{END}\n"));
}

#[test]
fn insert_after_first_line_keeps_rest() {
    let out = insert_block_after_header("#%PAM-1.0\nauth x\nauth y\n".to_string(), "p");
    assert_eq!(out, format!("#%PAM-1.0\n{BEGIN}\np\n{END}\nauth x\nauth y\n"));
}

#[test]
fn insert_normalizes_missing_trailing_newline() {
    let out = insert_block_after_header("#%PAM-1.0\nauth x".to_string(), "p");
    assert_eq!(out, format!("#%PAM-1.0\n{BEGIN}\np\n{END}\nauth x\n"));
}

#[test]
fn insert_into_single_unterminated_line() {
    let out = insert_block_after_header("#%PAM-1.0".to_string(), "p");
    assert_eq!(out, format!("#%PAM-1.0\n{BEGIN}\np\n{END}\n"));
}

#[test]
fn round_trip_restores_base() {
    // The round-trip law on concrete values: stripping right after an
    // insert gives back the newline-normalized base.
    let base = "#%PAM-1.0\nauth keep\n";
    let inserted = insert_block_after_header(base.to_string(), "auth a\nauth b");
    assert_eq!(remove_fenced_blocks(&inserted), base);
    let unterminated = "#%PAM-1.0\nauth keep";
    let inserted2 = insert_block_after_header(unterminated.to_string(), "p");
    assert_eq!(remove_fenced_blocks(&inserted2), "#%PAM-1.0\nauth keep\n");
}

#[test]
fn reapplying_accumulates_no_blocks() {
    // The idempotence law on concrete values: strip, insert, strip, insert,
    // strip leaves the same text as the first strip-insert-strip round.
    let original = format!("#%PAM-1.0\n{BEGIN}\nstale\n{END}\nauth keep\n");
    let first = insert_block_after_header(remove_fenced_blocks(&original), "fresh");
    let second = insert_block_after_header(remove_fenced_blocks(&first), "fresh");
    assert_eq!(second, first);
    assert_eq!(remove_fenced_blocks(&second), remove_fenced_blocks(&first));
}

#[test]
fn marker_presence_test_is_loose() {
    assert!(content_has_marker(&format!("x\n{BEGIN}\ny\n")));
    assert!(content_has_marker(&format!("prefix {BEGIN} suffix")));
    assert!(!content_has_marker("x\n# BEGIN other\ny\n"));
    assert!(!content_has_marker(""));
}
