use comrak_nif::render::Segment;
use comrak_nif::adapter::LumisAdapter;
use comrak_nif::attributes::Attributes;
use comrak_nif::config::{
    ExAppearance, ExStyle, ExTextDecoration, ExTheme, ExFormatterOption, ExHtmlInlineHighlightLines, ExHtmlInlineHighlightLinesStyle,
    ExHtmlLinkedHighlightLines, ExLineSpec, ThemeOrString,
};
use comrak_nif::highlight_lines::highlight_lines_config;
use comrak_nif::theme::{choose_theme, ThemeChoice, ThemeFacts};

fn attrs(pairs: &[(&str, &str)]) -> Attributes {
    let mut a = Attributes::new();
    for (k, v) in pairs {
        a.insert(k.to_string(), v.to_string());
    }
    a
}

fn inline(theme: Option<&str>, pre_class: Option<&str>) -> ExFormatterOption {
    ExFormatterOption::HtmlInline {
        theme: theme.map(|t| ThemeOrString::String(t.to_string())),
        pre_class: pre_class.map(|c| c.to_string()),
        italic: false,
        include_highlights: false,
        highlight_lines: None,
        header: None,
    }
}

fn linked() -> ExFormatterOption {
    ExFormatterOption::HtmlLinked { pre_class: None, highlight_lines: None, header: None }
}

fn render(adapter: &mut LumisAdapter, pre: &[(&str, &str)], code: &[(&str, &str)], source: &str) -> (String, String, String) {
    let p = adapter.write_pre_tag(&attrs(pre)).unwrap();
    let c = adapter.write_code_tag(&attrs(code)).unwrap();
    let h = adapter.write_highlighted(None, source).unwrap();
    (p, c, h)
}

fn named(c: &Option<ThemeChoice>) -> Option<String> {
    match c {
        Some(ThemeChoice::Named(n)) => Some(n.clone()),
        _ => None,
    }
}

#[test]
fn scenario_rust_fence_default_inline() {
    let mut a = LumisAdapter::new(ExFormatterOption::default());
    let (p, c, h) = render(&mut a, &[], &[("class", "language-rust")], "fn main() {}\n");
    assert_eq!(p.matches("<pre").count(), 1);
    assert!(c.starts_with("<code class=\"language-rust\""));
    assert_eq!(h.matches("data-line=").count(), 1);
    assert!(h.contains("data-line=\"1\""));
    assert!(h.starts_with("<div class=\"line\""));
    assert!(h.ends_with("\n</div>"));
}

#[test]
fn scenario_decorators_highlight_lines_and_pre_class() {
    let mut a = LumisAdapter::new(inline(None, Some("base")));
    let meta = "pre_class=\"a b\" highlight_lines=\"1,3-4\" highlight_lines_class=hl";
    let (p, _c, h) = render(&mut a, &[("data-meta", meta)], &[("class", "language-rust")], "let a = 1;\nlet b = 2;\nlet c = 3;\nlet d = 4;");
    assert!(p.starts_with("<pre class=\"lumis a b\""));
    let lines: Vec<&str> = h.split("</div>").filter(|l| !l.is_empty()).collect();
    assert_eq!(lines.len(), 4);
    assert!(lines[0].contains("class=\"line hl\""));
    assert!(lines[1].starts_with("<div class=\"line\" data-line=\"2\">"));
    assert!(lines[2].contains("class=\"line hl\""));
    assert!(lines[3].contains("class=\"line hl\""));
    assert!(lines[0].starts_with("<div class=\"line hl\" style=\""));
}

#[test]
fn scenario_unknown_decorator_theme_falls_back() {
    let f = inline(Some("nord"), None);
    let c = choose_theme(Some("nonexistent_theme_xyz"), &f);
    assert_eq!(named(&c), Some("nord".to_string()));
    let d = choose_theme(Some("nonexistent_theme_xyz"), &ExFormatterOption::default());
    assert_eq!(named(&d), Some("onedark".to_string()));
}

#[test]
fn decorator_theme_overrides_formatter_theme() {
    let f = inline(Some("nord"), None);
    assert_eq!(named(&choose_theme(Some("github_light"), &f)), Some("github_light".to_string()));
    assert_eq!(named(&choose_theme(None, &f)), Some("nord".to_string()));
    assert_eq!(named(&choose_theme(None, &inline(Some("no_such_theme"), None))), Some("onedark".to_string()));
    assert!(choose_theme(Some("github_light"), &linked()).is_none());
}

#[test]
fn scenario_plaintext_linked_has_no_spans() {
    let mut a = LumisAdapter::new(linked());
    let meta = "highlight_lines=2";
    let (_p, c, h) = render(&mut a, &[("data-meta", meta)], &[], "plain <b>\ntext\n");
    assert!(c.contains("language-plaintext"));
    assert!(!h.contains("<span"));
    assert_eq!(
        h,
        "<div class=\"line\" data-line=\"1\">plain &lt;b&gt;\n</div><div class=\"line highlighted\" data-line=\"2\">text\n</div>"
    );
}

#[test]
fn linked_rust_emits_class_spans() {
    let mut a = LumisAdapter::new(linked());
    let (_p, _c, h) = render(&mut a, &[], &[("class", "language-rust")], "fn main() {}");
    assert!(h.contains("<span class=\""));
    assert!(h.contains(">fn</span>"));
    assert!(!h.contains("style="));
}

#[test]
fn line_wrappers_match_newline_pieces() {
    let mut a = LumisAdapter::new(linked());
    let (_p, _c, h) = render(&mut a, &[], &[("class", "language-plaintext")], "a\n\nb");
    assert_eq!(h.matches("<div class=\"line").count(), "a\n\nb".split('\n').count());
    assert!(h.contains("data-line=\"2\">\n</div>"));
}

#[test]
fn empty_source_still_gets_one_line() {
    let mut a = LumisAdapter::new(linked());
    let (_p, _c, h) = render(&mut a, &[], &[], "");
    assert_eq!(h, "<div class=\"line\" data-line=\"1\">\n</div>");
}

#[test]
fn highlighted_without_tags_uses_hint() {
    let a = LumisAdapter::new(linked());
    assert_eq!(a.effective_language(Some("rust"), "fn x() {}"), "rust");
    assert_eq!(a.effective_language(None, "just words"), "plaintext");
    let h = a.write_highlighted(Some("rust"), "fn x() {}").unwrap();
    assert!(h.contains("<span"));
}

#[test]
fn code_tag_language_first_write_wins() {
    let mut a = LumisAdapter::new(linked());
    a.write_pre_tag(&attrs(&[("lang", "rust")])).unwrap();
    let c = a.write_code_tag(&attrs(&[("class", "language-python")])).unwrap();
    assert!(c.contains("language-rust"));
}

#[test]
fn pre_tag_resets_previous_block() {
    let mut a = LumisAdapter::new(linked());
    a.write_pre_tag(&attrs(&[("lang", "rust"), ("data-meta", "pre_class=x")])).unwrap();
    a.write_pre_tag(&attrs(&[])).unwrap();
    let c = a.write_code_tag(&attrs(&[("class", "language-plaintext")])).unwrap();
    assert!(c.contains("language-plaintext"));
    assert!(a.pre_class().is_none());
}

#[test]
fn decorator_pre_class_overrides_formatter() {
    let mut a = LumisAdapter::new(inline(None, Some("default-class")));
    assert_eq!(a.pre_class(), Some("default-class".to_string()));
    a.write_pre_tag(&attrs(&[("data-meta", "pre_class=custom")])).unwrap();
    assert_eq!(a.pre_class(), Some("custom".to_string()));
}

#[test]
fn include_highlights_flag_from_decorator() {
    let mut a = LumisAdapter::new(inline(None, None));
    assert!(!a.should_include_highlights());
    a.write_pre_tag(&attrs(&[("data-meta", "include_highlights")])).unwrap();
    assert!(a.should_include_highlights());
}

#[test]
fn terminal_writes_no_tags() {
    let mut a = LumisAdapter::new(ExFormatterOption::Terminal { theme: None });
    assert_eq!(a.write_pre_tag(&attrs(&[("lang", "rust")])).unwrap(), "");
    assert_eq!(a.write_code_tag(&attrs(&[])).unwrap(), "");
    let h = a.write_highlighted(None, "fn main() {}").unwrap();
    assert!(h.contains("main"));
    assert!(h.contains('\u{1b}'));
}

#[test]
fn decorator_highlight_lines_style_literal_and_class() {
    let a = Some(attrs(&[("highlight_lines", "2-3"), ("highlight_lines_style", "color: red"), ("highlight_lines_class", "x")]));
    let cfg = highlight_lines_config(&a, &inline(None, None), &None).unwrap();
    assert_eq!(cfg.lines, vec![2, 3]);
    assert_eq!(cfg.style, Some("color: red".to_string()));
    assert_eq!(cfg.class, Some("x".to_string()));
}

#[test]
fn decorator_highlight_lines_fallback_backgrounds() {
    let a = Some(attrs(&[("highlight_lines", "1")]));
    let light = Some(ThemeFacts { highlighted_css: None, light: true });
    let dark = Some(ThemeFacts { highlighted_css: None, light: false });
    let l = highlight_lines_config(&a, &inline(None, None), &light).unwrap();
    assert_eq!(l.style, Some("background-color: #e7eaf0;".to_string()));
    let d = highlight_lines_config(&a, &inline(None, None), &dark).unwrap();
    assert_eq!(d.style, Some("background-color: #3b4252;".to_string()));
    assert_eq!(d.class, None);
    let k = highlight_lines_config(&a, &linked(), &dark).unwrap();
    assert_eq!(k.style, None);
    assert_eq!(k.class, Some("highlighted".to_string()));
}

#[test]
fn decorator_highlight_style_theme_keyword() {
    let a = Some(attrs(&[("highlight_lines", "1"), ("highlight_lines_style", "theme")]));
    let facts = Some(ThemeFacts { highlighted_css: Some("background-color: #abc;".to_string()), light: false });
    let cfg = highlight_lines_config(&a, &inline(None, None), &facts).unwrap();
    assert_eq!(cfg.style, Some("background-color: #abc;".to_string()));
}

#[test]
fn formatter_highlight_lines_used_without_decorator() {
    let f = ExFormatterOption::HtmlInline {
        theme: None,
        pre_class: None,
        italic: false,
        include_highlights: false,
        highlight_lines: Some(ExHtmlInlineHighlightLines {
            lines: vec![ExLineSpec::Single(1), ExLineSpec::Range { start: 3, end: 4 }],
            style: Some(ExHtmlInlineHighlightLinesStyle::Theme),
            class: Some("c".to_string()),
        }),
        header: None,
    };
    let cfg = highlight_lines_config(&None, &f, &None).unwrap();
    assert_eq!(cfg.lines, vec![1, 3, 4]);
    assert_eq!(cfg.style, Some("background-color: #3b4252;".to_string()));
    let g = ExFormatterOption::HtmlLinked {
        pre_class: None,
        highlight_lines: Some(ExHtmlLinkedHighlightLines { lines: vec![ExLineSpec::Single(2)], class: "k".to_string() }),
        header: None,
    };
    let cfg = highlight_lines_config(&Some(attrs(&[("theme", "nord")])), &g, &None).unwrap();
    assert_eq!(cfg.lines, vec![2]);
    assert_eq!(cfg.style, None);
    assert_eq!(cfg.class, Some("k".to_string()));
    assert!(highlight_lines_config(&None, &linked(), &None).is_none());
}

#[test]
fn same_decorator_through_both_tags_is_stored_once() {
    let meta = "pre_class=\"p q\" highlight_lines=1";
    let mut a = LumisAdapter::new(inline(None, None));
    a.write_pre_tag(&attrs(&[("data-meta", meta)])).unwrap();
    let after_pre = a.pre_class();
    a.write_code_tag(&attrs(&[("data-meta", meta), ("class", "language-rust")])).unwrap();
    assert_eq!(a.pre_class(), after_pre);
    assert_eq!(a.pre_class(), Some("p q".to_string()));
}

#[test]
fn malformed_decorator_keeps_stored_attributes() {
    let mut a = LumisAdapter::new(inline(None, None));
    a.write_pre_tag(&attrs(&[("data-meta", "pre_class=kept")])).unwrap();
    a.write_code_tag(&attrs(&[("data-meta", "pre_class=\"broken")])).unwrap();
    assert_eq!(a.pre_class(), Some("kept".to_string()));
}

#[test]
fn multi_themes_spans_use_css_variables() {
    let mut highlights = std::collections::HashMap::new();
    highlights.insert(
        "keyword".to_string(),
        ExStyle {
            fg: Some("#ff0000".to_string()),
            bg: None,
            bold: false,
            italic: false,
            text_decoration: ExTextDecoration { underline: None, strikethrough: false },
        },
    );
    let theme = ExTheme { name: "mine".to_string(), appearance: ExAppearance::Dark, revision: String::new(), highlights };
    let mut themes = std::collections::HashMap::new();
    themes.insert("dark".to_string(), theme);
    let f = ExFormatterOption::HtmlMultiThemes {
        themes,
        default_theme: None,
        css_variable_prefix: None,
        pre_class: None,
        italic: false,
        include_highlights: false,
        highlight_lines: None,
        header: None,
    };
    let mut a = LumisAdapter::new(f);
    let (p, _c, h) = render(&mut a, &[], &[("class", "language-rust")], "fn main() {}");
    assert!(p.starts_with("<pre class=\"lumis"));
    assert!(h.contains("--lumis-dark"));
}

fn strip_tags(html: &str) -> String {
    let mut out = String::new();
    let mut in_tag = false;
    for c in html.chars() {
        match c {
            '<' => in_tag = true,
            '>' => in_tag = false,
            _ if !in_tag => out.push(c),
            _ => {}
        }
    }
    out.replace("&lt;", "<").replace("&gt;", ">").replace("&quot;", "\"").replace("&#39;", "'").replace("&amp;", "&")
}

#[test]
fn highlighted_text_and_gaps_give_back_the_source() {
    let source = "fn main() {\n    let s = \"<a & b>\";\n}\n";
    for formatter in [linked(), inline(Some("nord"), None)] {
        let mut a = LumisAdapter::new(formatter);
        let (_p, _c, h) = render(&mut a, &[], &[("class", "language-rust")], source);
        assert_eq!(strip_tags(&h), source);
        assert_eq!(h.matches("<div class=\"line").count(), 3);
    }
}

#[test]
fn inline_spans_use_decorator_theme() {
    let source = "fn main() {}";
    let mut a = LumisAdapter::new(inline(Some("nord"), None));
    let (_p, _c, with_decorator) = render(&mut a, &[("data-meta", "theme=github_light")], &[("class", "language-rust")], source);
    let mut b = LumisAdapter::new(inline(Some("github_light"), None));
    let (_p, _c, configured) = render(&mut b, &[], &[("class", "language-rust")], source);
    assert_eq!(with_decorator, configured);
    let mut c = LumisAdapter::new(inline(Some("nord"), None));
    let (_p, _c, nord) = render(&mut c, &[], &[("class", "language-rust")], source);
    assert_ne!(with_decorator, nord);
}

#[test]
fn test_html_linked_plaintext() {
    let formatter = ExFormatterOption::HtmlLinked { pre_class: None, highlight_lines: None, header: None };
    let mut a = LumisAdapter::new(formatter);
    let mut output = String::new();
    output.push_str(&a.write_pre_tag(&attrs(&[])).unwrap());
    output.push_str(&a.write_code_tag(&attrs(&[])).unwrap());
    output.push_str(&a.write_highlighted(None, "plain\ntext\n").unwrap());
    output.push_str("</code></pre>\n");

    let expected = r#"<pre class="lumis"><code class="language-plaintext" translate="no" tabindex="0"><div class="line" data-line="1">plain
</div><div class="line" data-line="2">text
</div></code></pre>"#;

    assert_eq!(output.trim(), expected.trim());
}

#[test]
fn render_segments_draws_given_events() {
    let a = LumisAdapter::new(linked());
    let segs = vec![Segment { start: 0, end: 2, scope: "keyword".to_string() }];
    let out = a.render_segments("rust", "ab <d\nx", &segs);
    assert_eq!(
        out,
        "<div class=\"line\" data-line=\"1\"><span class=\"l-keyword\">ab</span> &lt;d\n</div><div class=\"line\" data-line=\"2\">x\n</div>"
    );
}

#[test]
fn other_fence_languages_are_known() {
    let a = LumisAdapter::new(linked());
    assert_eq!(a.effective_language(Some("elixir"), "IO.puts(1)"), "elixir");
    let h = a.write_highlighted(Some("elixir"), "IO.puts(1)").unwrap();
    assert!(h.contains("<span"));
}

#[test]
fn unknown_decorator_theme_writes_default_pre_tag() {
    let mut a = LumisAdapter::new(ExFormatterOption::default());
    let with_unknown = a.write_pre_tag(&attrs(&[("lang", "rust"), ("data-meta", "theme=nonexistent_theme_xyz")])).unwrap();
    let mut b = LumisAdapter::new(ExFormatterOption::default());
    let plain = b.write_pre_tag(&attrs(&[("lang", "rust")])).unwrap();
    assert_eq!(with_unknown, plain);
    assert!(plain.contains("style="));
}
