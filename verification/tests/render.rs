use nixdoc::entry::ManualEntry;
use nixdoc::generate_manual;

#[test]
fn entry_identifier_format() {
    let e = ManualEntry {
        category: "strings".to_string(),
        name: "concat".to_string(),
        fn_type: None,
        description: "concatenate".to_string(),
        parameters: vec![],
    };
    assert_eq!(e.ident(), "lib.strings.concat");
}

#[test]
fn rendered_section_identifier() {
    let src = "{\n  /* concatenate strings */\n  concat = a: a;\n}\n";
    let out = generate_manual(src, "strings", "String functions").unwrap();
    let doc = String::from_utf8(out).unwrap();
    assert!(doc.contains("xml:id=\"function-library-lib.strings.concat\""));
    assert!(doc.contains("<function>lib.strings.concat</function>"));
}

#[test]
fn end_to_end_documented_function() {
    let src = "{\n  /* @doc Doubles a number.\n  Type:\n    int -> int\n  */\n  double = x: x;\n}\n";
    let out = generate_manual(src, "math", "Math functions").unwrap();
    let doc = String::from_utf8(out).unwrap();
    assert!(doc.contains("xml:id=\"sec-functions-library-math\""));
    assert!(doc.contains("xmlns=\"http://docbook.org/ns/docbook\""));
    assert!(doc.contains("xmlns:xlink=\"http://www.w3.org/1999/xlink\""));
    assert!(doc.contains("xmlns:xi=\"http://www.w3.org/2001/XInclude\""));
    assert!(doc.contains("<title>Math functions</title>"));
    assert!(doc.contains("xml:id=\"function-library-lib.math.double\""));
    assert!(doc.contains("<function>lib.math.double</function>"));
    assert!(doc.contains("<literal>int -&gt; int</literal>"));
    assert!(doc.contains("<para>Doubles a number.</para>"));
}

#[test]
fn extraction_order_is_document_order() {
    let src = "{\n  /* first */\n  a = 1;\n  b = 2;\n  /* third */\n  c = 3;\n}\n";
    let out = generate_manual(src, "trivial", "Trivial functions").unwrap();
    let doc = String::from_utf8(out).unwrap();
    let pos_a = doc.find("function-library-lib.trivial.a").expect("a must be rendered");
    let pos_c = doc.find("function-library-lib.trivial.c").expect("c must be rendered");
    assert!(!doc.contains("function-library-lib.trivial.b"));
    assert!(pos_a < pos_c);
}

#[test]
fn empty_input_renders_wrapper_only() {
    let out = generate_manual("{ }", "lib", "Library functions").unwrap();
    let doc = String::from_utf8(out).unwrap();
    assert!(doc.contains("xml:id=\"sec-functions-library-lib\""));
    assert!(doc.contains("<title>Library functions</title>"));
    assert!(!doc.contains("<function>"));
    assert!(!doc.contains("<section xml:id=\"function-library-"));
}

#[test]
fn entry_without_type_has_no_subtitle() {
    let src = "{\n  /* plain words */\n  f = a: a;\n}\n";
    let out = generate_manual(src, "lib", "Library functions").unwrap();
    let doc = String::from_utf8(out).unwrap();
    assert!(doc.contains("<para>plain words</para>"));
    assert!(!doc.contains("<subtitle>"));
}

#[test]
fn unparsable_source_is_an_error() {
    assert!(generate_manual("{", "lib", "Library functions").is_err());
}

#[test]
fn description_text_is_escaped_by_the_sink() {
    let src = "{\n  /* a < b & c */\n  cmp = a: a;\n}\n";
    let out = generate_manual(src, "lib", "Library functions").unwrap();
    let doc = String::from_utf8(out).unwrap();
    assert!(doc.contains("a &lt; b &amp; c"));
}
