//! Which lines of a block are emphasised, and with what class and style.
use vstd::prelude::*;

use crate::attributes::Attributes;
use crate::config::{
    clone_opt, opt_view, ExFormatterOption, ExHtmlInlineHighlightLinesStyle, ExLineSpec,
};
use crate::line_spec::{
    convert_line_specs, lines_of_line_specs, lines_of_spec, parse_highlight_lines,
};
use crate::text::str_eq;
use crate::theme::ThemeFacts;

verus! {

/// The resolved highlight-line settings of one rendering pass.
#[derive(Debug)]
pub struct HighlightLineConfig {
    pub lines: Vec<usize>,
    pub style: Option<String>,
    pub class: Option<String>,
}

/// What resolved highlight-line settings stand for: the lines, the style, the class.
pub type LineConfigView = (Seq<usize>, Option<Seq<char>>, Option<Seq<char>>);

impl HighlightLineConfig {
    pub open spec fn view(&self) -> LineConfigView {
        (self.lines@, opt_view(self.style), opt_view(self.class))
    }
}

pub open spec fn config_view(c: Option<HighlightLineConfig>) -> Option<LineConfigView> {
    match c {
        Some(x) => Some(x.view()),
        None => None,
    }
}

/// What the resolver reads of a theme: its `highlighted` CSS, and whether it is light.
pub open spec fn facts_view(t: Option<ThemeFacts>) -> Option<(Option<Seq<char>>, bool)> {
    match t {
        Some(f) => Some((opt_view(f.highlighted_css), f.light)),
        None => None,
    }
}

pub open spec fn map_get(m: Map<Seq<char>, Seq<char>>, k: Seq<char>) -> Option<Seq<char>> {
    if m.contains_key(k) {
        Some(m[k])
    } else {
        None
    }
}

/// The background given to highlighted lines when the theme offers no style.
pub open spec fn fallback_line_style(light: bool) -> Seq<char> {
    if light {
        "background-color: #e7eaf0;"@
    } else {
        "background-color: #3b4252;"@
    }
}

/// The class the linked back end gives highlighted lines when none is named.
pub open spec fn linked_default_class() -> Seq<char> {
    "highlighted"@
}

/// The style of decorator-highlighted lines: `highlight_lines_style` as given, or
/// the theme's `highlighted` CSS for the keyword `theme`; failing both, the
/// fallback background of the theme's appearance (not for the linked back end).
pub open spec fn decorator_line_style(
    style_attr: Option<Seq<char>>,
    theme: Option<(Option<Seq<char>>, bool)>,
    linked: bool,
) -> Option<Seq<char>> {
    let given = match style_attr {
        Some(s) => if s == "theme"@ {
            match theme {
                Some(t) => t.0,
                None => None,
            }
        } else {
            Some(s)
        },
        None => None,
    };
    match given {
        Some(x) => Some(x),
        None => if linked {
            None
        } else {
            match theme {
                Some(t) => Some(fallback_line_style(t.1)),
                None => None,
            }
        },
    }
}

/// The class of decorator-highlighted lines.
pub open spec fn decorator_line_class(class_attr: Option<Seq<char>>, linked: bool) -> Option<
    Seq<char>,
> {
    match class_attr {
        Some(c) => Some(c),
        None => if linked {
            Some(linked_default_class())
        } else {
            None
        },
    }
}

/// The style of lines the formatter configuration highlights.
pub open spec fn formatter_line_style(
    style: Option<ExHtmlInlineHighlightLinesStyle>,
    theme: Option<(Option<Seq<char>>, bool)>,
) -> Option<Seq<char>> {
    match style {
        None => None,
        Some(ExHtmlInlineHighlightLinesStyle::Style { style }) => Some(style@),
        Some(ExHtmlInlineHighlightLinesStyle::Theme) => match theme {
            Some(t) => match t.0 {
                Some(css) => Some(css),
                None => Some(fallback_line_style(t.1)),
            },
            None => Some(fallback_line_style(false)),
        },
    }
}

/// The highlight-line settings of a block: a decorator `highlight_lines` takes
/// full precedence; otherwise the formatter's own settings are used as they are.
pub open spec fn line_config(
    attrs: Option<Map<Seq<char>, Seq<char>>>,
    formatter: ExFormatterOption,
    theme: Option<(Option<Seq<char>>, bool)>,
) -> Option<LineConfigView> {
    if attrs is Some && attrs->0.contains_key("highlight_lines"@) {
        let a = attrs->0;
        let linked = formatter.is_linked();
        Some(
            (
                lines_of_spec(a["highlight_lines"@]),
                decorator_line_style(map_get(a, "highlight_lines_style"@), theme, linked),
                decorator_line_class(map_get(a, "highlight_lines_class"@), linked),
            ),
        )
    } else {
        match formatter {
            ExFormatterOption::HtmlInline { highlight_lines: Some(hl), .. }
            | ExFormatterOption::HtmlMultiThemes { highlight_lines: Some(hl), .. } => Some(
                (
                    lines_of_line_specs(hl.lines@),
                    formatter_line_style(hl.style, theme),
                    opt_view(hl.class),
                ),
            ),
            ExFormatterOption::HtmlLinked { highlight_lines: Some(hl), .. } => Some(
                (lines_of_line_specs(hl.lines@), None, Some(hl.class@)),
            ),
            _ => None,
        }
    }
}

fn fallback_style(light: bool) -> (r: String)
    ensures
        r@ == fallback_line_style(light),
{
    if light {
        "background-color: #e7eaf0;".to_owned()
    } else {
        "background-color: #3b4252;".to_owned()
    }
}

fn decorator_style(style_attr: Option<String>, theme: &Option<ThemeFacts>, linked: bool) -> (r:
    Option<String>)
    ensures
        opt_view(r) == decorator_line_style(opt_view(style_attr), facts_view(*theme), linked),
{
    let given = match style_attr {
        Some(s) => {
            if str_eq(s.as_str(), "theme") {
                match theme {
                    Some(t) => clone_opt(&t.highlighted_css),
                    None => None,
                }
            } else {
                Some(s)
            }
        },
        None => None,
    };
    match given {
        Some(x) => Some(x),
        None => {
            if linked {
                None
            } else {
                match theme {
                    Some(t) => Some(fallback_style(t.light)),
                    None => None,
                }
            }
        },
    }
}

fn formatter_style(style: &Option<ExHtmlInlineHighlightLinesStyle>, theme: &Option<ThemeFacts>) -> (r:
    Option<String>)
    ensures
        opt_view(r) == formatter_line_style(*style, facts_view(*theme)),
{
    match style {
        None => None,
        Some(ExHtmlInlineHighlightLinesStyle::Style { style }) => Some(style.clone()),
        Some(ExHtmlInlineHighlightLinesStyle::Theme) => match theme {
            Some(t) => match &t.highlighted_css {
                Some(css) => Some(css.clone()),
                None => Some(fallback_style(t.light)),
            },
            None => Some(fallback_style(false)),
        },
    }
}

/// Resolves the highlight-line settings for one rendering pass.
pub fn highlight_lines_config(
    attrs: &Option<Attributes>,
    formatter: &ExFormatterOption,
    theme: &Option<ThemeFacts>,
) -> (r: Option<HighlightLineConfig>)
    ensures
        config_view(r) == line_config(
            match attrs {
                Some(a) => Some(a@),
                None => None,
            },
            *formatter,
            facts_view(*theme),
        ),
{
    if let Some(a) = attrs {
        if let Some(spec) = a.get("highlight_lines") {
            let linked = formatter.is_linked_exec();
            let lines = parse_highlight_lines(spec.as_str());
            let style = decorator_style(a.get("highlight_lines_style"), theme, linked);
            let class = match a.get("highlight_lines_class") {
                Some(c) => Some(c),
                None => {
                    if linked {
                        Some("highlighted".to_owned())
                    } else {
                        None
                    }
                },
            };
            return Some(HighlightLineConfig { lines, style, class });
        }
    }
    formatter_highlight_lines_config(formatter, theme)
}

/// The highlight-line settings the formatter configuration carries.
pub fn formatter_highlight_lines_config(
    formatter: &ExFormatterOption,
    theme: &Option<ThemeFacts>,
) -> (r: Option<HighlightLineConfig>)
    ensures
        config_view(r) == line_config(None, *formatter, facts_view(*theme)),
{
    match formatter {
        ExFormatterOption::HtmlInline { highlight_lines: Some(hl), .. }
        | ExFormatterOption::HtmlMultiThemes { highlight_lines: Some(hl), .. } => {
            let lines = convert_line_specs(hl.lines.as_slice());
            let style = formatter_style(&hl.style, theme);
            let class = clone_opt(&hl.class);
            Some(HighlightLineConfig { lines, style, class })
        },
        ExFormatterOption::HtmlLinked { highlight_lines: Some(hl), .. } => {
            let lines = convert_line_specs(hl.lines.as_slice());
            Some(HighlightLineConfig { lines, style: None, class: Some(hl.class.clone()) })
        },
        _ => None,
    }
}

} // verus!
