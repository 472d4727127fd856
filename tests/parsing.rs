use comrak_nif::attributes::{parse_custom_attributes, Attributes};
use comrak_nif::config::ExLineSpec;
use comrak_nif::line_spec::{convert_line_specs, parse_highlight_lines, render_line_specs};

fn get(a: &Attributes, k: &str) -> Option<String> {
    a.get(k)
}

#[test]
fn decorator_quoted_values_survive_as_one_token() {
    let a = parse_custom_attributes("pre_class=\"a b\" highlight_lines=\"1,3-4\"").unwrap();
    assert_eq!(get(&a, "pre_class"), Some("a b".to_string()));
    assert_eq!(get(&a, "highlight_lines"), Some("1,3-4".to_string()));
    assert_eq!(get(&a, "theme"), None);
}

#[test]
fn decorator_bare_flag_is_true() {
    let a = parse_custom_attributes("include_highlights theme=nord").unwrap();
    assert_eq!(get(&a, "include_highlights"), Some("true".to_string()));
    assert_eq!(get(&a, "theme"), Some("nord".to_string()));
}

#[test]
fn decorator_later_key_wins() {
    let a = parse_custom_attributes("theme=nord theme=dracula").unwrap();
    assert_eq!(get(&a, "theme"), Some("dracula".to_string()));
}

#[test]
fn decorator_value_split_at_first_equals() {
    let a = parse_custom_attributes("style=\"a=b\"").unwrap();
    assert_eq!(get(&a, "style"), Some("a=b".to_string()));
}

#[test]
fn decorator_key_is_trimmed_value_is_not() {
    let a = parse_custom_attributes("\" key =  v \"").unwrap();
    assert_eq!(get(&a, "key"), Some("  v ".to_string()));
}

#[test]
fn decorator_unterminated_quote_gives_none() {
    assert!(parse_custom_attributes("pre_class=\"a b").is_none());
}

#[test]
fn decorator_empty_gives_none() {
    assert!(parse_custom_attributes("").is_none());
    assert!(parse_custom_attributes("   ").is_none());
}

#[test]
fn decorator_keys_are_case_sensitive() {
    let a = parse_custom_attributes("Theme=nord").unwrap();
    assert_eq!(get(&a, "theme"), None);
    assert_eq!(get(&a, "Theme"), Some("nord".to_string()));
}

#[test]
fn decorator_same_string_twice_same_attributes() {
    let s = "pre_class=\"x y\" theme=nord highlight_lines=2";
    let a = parse_custom_attributes(s).unwrap();
    let b = parse_custom_attributes(s).unwrap();
    for k in ["pre_class", "theme", "highlight_lines", "missing"] {
        assert_eq!(get(&a, k), get(&b, k));
    }
}

#[test]
fn line_ranges_expand_inclusive() {
    assert_eq!(parse_highlight_lines("1,3-5,9"), vec![1, 3, 4, 5, 9]);
}

#[test]
fn line_ranges_skip_malformed_parts() {
    assert_eq!(parse_highlight_lines("a,2,5-3,x-4,7"), vec![2, 7]);
    assert_eq!(parse_highlight_lines(""), Vec::<usize>::new());
    assert_eq!(parse_highlight_lines("-1,1-"), Vec::<usize>::new());
}

#[test]
fn line_ranges_allow_blanks_and_plus() {
    assert_eq!(parse_highlight_lines(" 1 - 2 , +3 "), vec![1, 2, 3]);
}

#[test]
fn line_ranges_single_line_range() {
    assert_eq!(parse_highlight_lines("4-4"), vec![4]);
}

#[test]
fn line_ranges_overflowing_number_skipped() {
    assert_eq!(parse_highlight_lines("99999999999999999999999,1"), vec![1]);
}

#[test]
fn line_specs_convert_in_order() {
    let specs = vec![ExLineSpec::Range { start: 2, end: 4 }, ExLineSpec::Single(7), ExLineSpec::Range { start: 3, end: 1 }];
    assert_eq!(convert_line_specs(&specs), vec![2, 3, 4, 7]);
}

#[test]
fn line_spec_to_range_inclusive() {
    assert_eq!(ExLineSpec::Single(3).to_range_inclusive(), 3..=3);
    assert_eq!(ExLineSpec::Range { start: 2, end: 5 }.to_range_inclusive(), 2..=5);
}

#[test]
fn line_specs_render_then_parse_round_trip() {
    let specs = vec![ExLineSpec::Single(1), ExLineSpec::Range { start: 3, end: 5 }, ExLineSpec::Single(12)];
    let text = render_line_specs(&specs);
    assert_eq!(text, "1,3-5,12");
    assert_eq!(parse_highlight_lines(&text), convert_line_specs(&specs));
}
