use nixdoc::comment::parse_doc_comment;

#[test]
fn no_markers_yields_trimmed_doc() {
    let c = parse_doc_comment("Hello world.\nSecond line.");
    assert_eq!(c.doc, "Hello world.\nSecond line.");
    assert_eq!(c.doc_type, None);
    assert_eq!(c.example, None);
}

#[test]
fn whole_input_is_trimmed() {
    let c = parse_doc_comment("   hi   ");
    assert_eq!(c.doc, "hi");
    assert_eq!(c.doc_type, None);
    assert_eq!(c.example, None);
}

#[test]
fn empty_input_yields_empty_doc() {
    let c = parse_doc_comment("");
    assert_eq!(c.doc, "");
    assert_eq!(c.doc_type, None);
    assert_eq!(c.example, None);
}

#[test]
fn whitespace_only_input_yields_empty_doc() {
    let c = parse_doc_comment(" \n\t \n");
    assert_eq!(c.doc, "");
    assert_eq!(c.doc_type, None);
    assert_eq!(c.example, None);
}

#[test]
fn type_lines_concatenate_without_separator() {
    let c = parse_doc_comment("Type:\n  a ->\n  b");
    assert_eq!(c.doc, "");
    assert_eq!(c.doc_type, Some("a ->b".to_string()));
    assert_eq!(c.example, None);
}

#[test]
fn example_preserves_line_breaks() {
    let c = parse_doc_comment("Example:\nfoo\nbar");
    assert_eq!(c.doc, "");
    assert_eq!(c.doc_type, None);
    assert_eq!(c.example, Some("foo\nbar".to_string()));
}

#[test]
fn doc_marker_strips_prefix() {
    let c = parse_doc_comment("@doc Doubles a number.\nType:\n  int -> int");
    assert_eq!(c.doc, "Doubles a number.");
    assert_eq!(c.doc_type, Some("int -> int".to_string()));
    assert_eq!(c.example, None);
}

#[test]
fn doc_marker_requires_trailing_space() {
    // a lone `@doc` line is ordinary description text
    let c = parse_doc_comment("@doc\nx");
    assert_eq!(c.doc, "@doc\nx");
    assert_eq!(c.doc_type, None);
}

#[test]
fn type_marker_needs_no_trailing_space() {
    let c = parse_doc_comment("Type:int");
    assert_eq!(c.doc_type, Some("int".to_string()));
}

#[test]
fn markers_chain_on_one_line() {
    // `@doc ` is stripped first, then the remainder still starts with `Type:`
    let c = parse_doc_comment("@doc Type: int");
    assert_eq!(c.doc, "");
    assert_eq!(c.doc_type, Some("int".to_string()));
}

#[test]
fn markers_interleave_and_reorder() {
    let c = parse_doc_comment("Type:\n  a\nExample:\ncode\nType:\n  b\n@doc tail");
    assert_eq!(c.doc, "tail");
    assert_eq!(c.doc_type, Some("ab".to_string()));
    assert_eq!(c.example, Some("code".to_string()));
}

#[test]
fn empty_type_is_absent_not_empty() {
    let c = parse_doc_comment("Type:");
    assert_eq!(c.doc_type, None);
}

#[test]
fn blank_example_is_absent_not_empty() {
    let c = parse_doc_comment("Example:\n   ");
    assert_eq!(c.example, None);
}

#[test]
fn unicode_whitespace_is_trimmed() {
    let c = parse_doc_comment("\u{a0}hi \u{3000}\nthere\u{2002}");
    assert_eq!(c.doc, "hi\nthere");
    assert_eq!(c.doc_type, None);
    assert_eq!(c.example, None);
}

#[test]
fn description_keeps_interior_blank_lines() {
    let c = parse_doc_comment("first\n\nsecond");
    assert_eq!(c.doc, "first\n\nsecond");
}
