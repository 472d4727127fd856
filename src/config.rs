//! Formatter configuration: the four rendering back ends and what each carries.
use vstd::prelude::*;

use std::collections::HashMap;

verus! {

/// Whether a theme is meant for a light or a dark background.
#[derive(Clone, Copy, Debug, PartialEq, Eq, Structural)]
pub enum ExAppearance {
    Light,
    Dark,
}

impl Default for ExAppearance {
    fn default() -> (r: Self)
        ensures
            r == ExAppearance::Dark,
    {
        ExAppearance::Dark
    }
}

/// How an underline is drawn.
#[derive(Clone, Copy, Debug, PartialEq, Eq, Structural)]
pub enum ExUnderlineStyle {
    Solid,
    Wavy,
    Double,
    Dotted,
    Dashed,
}

/// Underline and strike-through of a style.
#[derive(Clone, Copy, Debug, PartialEq, Eq, Structural)]
pub struct ExTextDecoration {
    pub underline: Option<ExUnderlineStyle>,
    pub strikethrough: bool,
}

/// How one highlight scope is drawn.
#[derive(Clone, Debug)]
pub struct ExStyle {
    pub fg: Option<String>,
    pub bg: Option<String>,
    pub bold: bool,
    pub italic: bool,
    pub text_decoration: ExTextDecoration,
}

/// A fully materialised theme: its name, appearance, revision, and a style for
/// each highlight scope.
#[derive(Clone, Debug)]
pub struct ExTheme {
    pub name: String,
    pub appearance: ExAppearance,
    pub revision: String,
    pub highlights: HashMap<String, ExStyle>,
}

/// A theme given in full, or by a name to look up in the theme registry.
#[derive(Debug)]
pub enum ThemeOrString {
    Theme(ExTheme),
    String(String),
}

impl Default for ThemeOrString {
    fn default() -> (r: Self)
        ensures
            r matches ThemeOrString::String(n) && n@ == "onedark"@,
    {
        ThemeOrString::String("onedark".to_owned())
    }
}

/// Markup written around a rendered block.
#[derive(Clone, Debug)]
pub struct ExHtmlElement {
    pub open_tag: String,
    pub close_tag: String,
}

/// One line number, or an inclusive range of them.
#[derive(Clone, Copy, Debug, PartialEq, Eq, Structural)]
pub enum ExLineSpec {
    Single(usize),
    Range { start: usize, end: usize },
}

/// The style of highlighted lines: taken from the theme, or given literally.
#[derive(Clone, Debug)]
pub enum ExHtmlInlineHighlightLinesStyle {
    Theme,
    Style { style: String },
}

/// Highlighted lines of the inline and multi-theme back ends.
#[derive(Clone, Debug)]
pub struct ExHtmlInlineHighlightLines {
    pub lines: Vec<ExLineSpec>,
    pub style: Option<ExHtmlInlineHighlightLinesStyle>,
    pub class: Option<String>,
}

/// Highlighted lines of the linked back end, which only adds a class.
#[derive(Clone, Debug)]
pub struct ExHtmlLinkedHighlightLines {
    pub lines: Vec<ExLineSpec>,
    pub class: String,
}

/// The rendering back end and its settings; fixed for an adapter's lifetime.
#[derive(Debug)]
pub enum ExFormatterOption {
    HtmlInline {
        theme: Option<ThemeOrString>,
        pre_class: Option<String>,
        italic: bool,
        include_highlights: bool,
        highlight_lines: Option<ExHtmlInlineHighlightLines>,
        header: Option<ExHtmlElement>,
    },
    HtmlLinked {
        pre_class: Option<String>,
        highlight_lines: Option<ExHtmlLinkedHighlightLines>,
        header: Option<ExHtmlElement>,
    },
    HtmlMultiThemes {
        themes: HashMap<String, ExTheme>,
        default_theme: Option<String>,
        css_variable_prefix: Option<String>,
        pre_class: Option<String>,
        italic: bool,
        include_highlights: bool,
        highlight_lines: Option<ExHtmlInlineHighlightLines>,
        header: Option<ExHtmlElement>,
    },
    Terminal { theme: Option<ThemeOrString> },
}

impl Default for ExFormatterOption {
    fn default() -> (r: Self)
        ensures
            r matches ExFormatterOption::HtmlInline {
                theme: None,
                pre_class: None,
                italic: false,
                include_highlights: false,
                highlight_lines: None,
                header: None,
            },
    {
        ExFormatterOption::HtmlInline {
            theme: None,
            pre_class: None,
            italic: false,
            include_highlights: false,
            highlight_lines: None,
            header: None,
        }
    }
}

impl ExFormatterOption {
    /// The class the configuration adds to `<pre>`.
    pub open spec fn spec_pre_class(&self) -> Option<Seq<char>> {
        match self {
            ExFormatterOption::HtmlInline { pre_class, .. } => opt_view(*pre_class),
            ExFormatterOption::HtmlLinked { pre_class, .. } => opt_view(*pre_class),
            ExFormatterOption::HtmlMultiThemes { pre_class, .. } => opt_view(*pre_class),
            ExFormatterOption::Terminal { .. } => None,
        }
    }

    /// Whether italic styles are drawn.
    pub open spec fn spec_italic(&self) -> bool {
        match self {
            ExFormatterOption::HtmlInline { italic, .. } => *italic,
            ExFormatterOption::HtmlMultiThemes { italic, .. } => *italic,
            _ => false,
        }
    }

    /// Whether spans carry their scope name by configuration.
    pub open spec fn spec_include_highlights(&self) -> bool {
        match self {
            ExFormatterOption::HtmlInline { include_highlights, .. } => *include_highlights,
            ExFormatterOption::HtmlMultiThemes { include_highlights, .. } => *include_highlights,
            _ => false,
        }
    }

    /// The theme the configuration names, for the back ends that take one.
    pub open spec fn spec_configured_theme(&self) -> Option<ThemeOrString> {
        match self {
            ExFormatterOption::HtmlInline { theme, .. } => *theme,
            ExFormatterOption::Terminal { theme } => *theme,
            _ => None,
        }
    }

    pub open spec fn is_linked(&self) -> bool {
        self is HtmlLinked
    }

    pub open spec fn is_multi_themes(&self) -> bool {
        self is HtmlMultiThemes
    }

    /// Whether the back end draws with a theme's colours.
    pub open spec fn needs_theme(&self) -> bool {
        !(self is HtmlLinked)
    }

    /// The class the configuration adds to `<pre>`.
    pub fn pre_class(&self) -> (r: Option<String>)
        ensures
            opt_view(r) == self.spec_pre_class(),
    {
        match self {
            ExFormatterOption::HtmlInline { pre_class, .. } => clone_opt(pre_class),
            ExFormatterOption::HtmlLinked { pre_class, .. } => clone_opt(pre_class),
            ExFormatterOption::HtmlMultiThemes { pre_class, .. } => clone_opt(pre_class),
            ExFormatterOption::Terminal { .. } => None,
        }
    }

    /// Whether italic styles are drawn.
    pub fn italic_enabled(&self) -> (r: bool)
        ensures
            r == self.spec_italic(),
    {
        match self {
            ExFormatterOption::HtmlInline { italic, .. } => *italic,
            ExFormatterOption::HtmlMultiThemes { italic, .. } => *italic,
            _ => false,
        }
    }

    /// Whether spans carry their scope name by configuration.
    pub fn include_highlights(&self) -> (r: bool)
        ensures
            r == self.spec_include_highlights(),
    {
        match self {
            ExFormatterOption::HtmlInline { include_highlights, .. } => *include_highlights,
            ExFormatterOption::HtmlMultiThemes { include_highlights, .. } => *include_highlights,
            _ => false,
        }
    }

    pub fn is_linked_exec(&self) -> (r: bool)
        ensures
            r == self.is_linked(),
    {
        match self {
            ExFormatterOption::HtmlLinked { .. } => true,
            _ => false,
        }
    }

    pub fn is_multi_themes_exec(&self) -> (r: bool)
        ensures
            r == self.is_multi_themes(),
    {
        match self {
            ExFormatterOption::HtmlMultiThemes { .. } => true,
            _ => false,
        }
    }

    /// The markup to write around a block, where one is configured.
    pub fn header_config(&self) -> (r: Option<(String, String)>)
        ensures
            match self {
                ExFormatterOption::HtmlInline { header: Some(h), .. }
                | ExFormatterOption::HtmlLinked { header: Some(h), .. }
                | ExFormatterOption::HtmlMultiThemes { header: Some(h), .. } => r matches Some(
                    p,
                ) && p.0@ == h.open_tag@ && p.1@ == h.close_tag@,
                _ => r is None,
            },
    {
        match self {
            ExFormatterOption::HtmlInline { header: Some(h), .. }
            | ExFormatterOption::HtmlLinked { header: Some(h), .. }
            | ExFormatterOption::HtmlMultiThemes { header: Some(h), .. } => Some(
                (h.open_tag.clone(), h.close_tag.clone()),
            ),
            _ => None,
        }
    }
}

/// The characters an optional string holds.
pub open spec fn opt_view(s: Option<String>) -> Option<Seq<char>> {
    match s {
        Some(t) => Some(t@),
        None => None,
    }
}

/// A copy of an optional string.
pub fn clone_opt(c: &Option<String>) -> (r: Option<String>)
    ensures
        opt_view(r) == opt_view(*c),
{
    match c {
        Some(s) => Some(s.clone()),
        None => None,
    }
}

} // verus!
