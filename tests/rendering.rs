use comrak_nif::safe_html::{escape_braces, restore_escaped_braces};
use comrak_nif::inkjet::InkjetAdapter;
use comrak_nif::nodes::{attrs_to_task_item, char_to_string, string_to_char, AttrValue, NodeName};
use comrak_nif::render::{char_byte_offsets, pieces_from_segments, wrap_lines, Segment};
use comrak_nif::highlight_lines::HighlightLineConfig;

#[test]
fn pieces_cover_source_with_gaps() {
    let src: Vec<char> = "ab cd".chars().collect();
    let offsets = char_byte_offsets(&src);
    let segs = vec![
        Segment { start: 0, end: 2, scope: "keyword".to_string() },
        Segment { start: 3, end: 5, scope: "variable".to_string() },
    ];
    let ps = pieces_from_segments(src.len(), &offsets, &segs);
    let text: String = ps.iter().map(|p| src[p.start..p.end].iter().collect::<String>()).collect();
    assert_eq!(text, "ab cd");
    assert_eq!(ps.len(), 3);
    assert_eq!(ps[1].scope, "");
}

#[test]
fn pieces_pass_over_bad_events() {
    let src: Vec<char> = "héllo".chars().collect();
    let offsets = char_byte_offsets(&src);
    assert_eq!(offsets, vec![0, 1, 3, 4, 5, 6]);
    let segs = vec![
        Segment { start: 2, end: 4, scope: "x".to_string() },
        Segment { start: 3, end: 6, scope: "y".to_string() },
        Segment { start: 0, end: 1, scope: "z".to_string() },
    ];
    let ps = pieces_from_segments(src.len(), &offsets, &segs);
    let text: String = ps.iter().map(|p| src[p.start..p.end].iter().collect::<String>()).collect();
    assert_eq!(text, "héllo");
    assert_eq!(ps.last().unwrap().scope, "y");
}

#[test]
fn wrap_lines_numbers_and_marks() {
    let cfg = Some(HighlightLineConfig { lines: vec![2], style: Some("s".to_string()), class: Some("c".to_string()) });
    let out = wrap_lines(&vec!["x".to_string(), "y".to_string()], &cfg);
    assert_eq!(out, "<div class=\"line\" data-line=\"1\">x\n</div><div class=\"line c\" style=\"s\" data-line=\"2\">y\n</div>");
}

#[test]
fn wrap_lines_large_numbers() {
    let contents: Vec<String> = (0..12).map(|_| String::new()).collect();
    let out = wrap_lines(&contents, &None);
    assert!(out.contains("data-line=\"12\""));
    assert!(out.contains("data-line=\"10\""));
}

#[test]
fn inkjet_adapter_unknown_theme_falls_back() {
    let a = InkjetAdapter::new("no_such_theme", false);
    assert_eq!(a.theme(), "onedark");
    assert!(!a.uses_inline_style());
    let b = InkjetAdapter::new("nord", true);
    assert_eq!(b.theme(), "nord");
}

#[test]
fn inkjet_class_language() {
    assert_eq!(InkjetAdapter::class_language("language-rust"), "rust");
    assert_eq!(InkjetAdapter::class_language("language-x-y"), "x");
    assert_eq!(InkjetAdapter::class_language("rust"), "plaintext");
}

#[test]
fn node_names_case_insensitive() {
    assert_eq!(NodeName::parse_name("Code_Block"), Some(NodeName::CodeBlock));
    assert_eq!(NodeName::parse_name("document"), Some(NodeName::Document));
    assert_eq!(NodeName::parse_name("nope"), None);
    assert_eq!("escaped_tag".parse::<NodeName>().ok(), Some(NodeName::EscapedTag));
}

#[test]
fn bytes_and_single_char_strings() {
    assert_eq!(string_to_char(String::new()), 0);
    assert_eq!(string_to_char("*x".to_string()), b'*');
    assert_eq!(char_to_string(0), Ok(String::new()));
    assert_eq!(char_to_string(b'-'), Ok("-".to_string()));
    assert_eq!(char_to_string(200), Err("failed to convert to string"));
    assert_eq!(string_to_char(char_to_string(b'+').unwrap()), b'+');
}

#[test]
fn task_item_symbol() {
    assert_eq!(attrs_to_task_item("task_item", vec![("symbol", AttrValue::Text("x".to_string()))]), Some('x'));
    assert_eq!(
        attrs_to_task_item("task_item", vec![("symbol", AttrValue::Text("x".to_string())), ("checked", AttrValue::Bool(false))]),
        None
    );
    assert_eq!(attrs_to_task_item("task_item", vec![("other", AttrValue::Bool(true))]), None);
}

#[test]
fn inkjet_code_tag_from_class() {
    let a = InkjetAdapter::default();
    let mut attrs = comrak_nif::attributes::Attributes::new();
    attrs.insert("class".to_string(), "language-rust".to_string());
    assert!(a.write_code_tag(&attrs).unwrap().starts_with("<code class=\"language-rust\""));
    let none = comrak_nif::attributes::Attributes::new();
    assert!(a.write_code_tag(&none).unwrap().starts_with("<code class=\"language-plaintext\""));
    assert!(a.write_pre_tag().unwrap().starts_with("<pre class=\"lumis\""));
}

#[test]
fn braces_escape_and_restore() {
    assert_eq!(escape_braces("f() { x }"), "f() &lbrace; x &rbrace;");
    assert_eq!(restore_escaped_braces("a &amp;lbrace; b &amp;rbrace; &amp;c"), "a &lbrace; b &rbrace; &amp;c");
}
