//! Which theme a code block is drawn with, and the lumis theme registry behind it.
use vstd::prelude::*;

use crate::config::{
    ExAppearance, ExFormatterOption, ExStyle, ExTheme, ExUnderlineStyle, ThemeOrString,
};
use crate::config::opt_view;
use crate::highlight_lines::facts_view;
use lumis::themes::{Style, TextDecoration, UnderlineStyle};

verus! {

#[verifier::external_type_specification]
#[verifier::external_body]
pub struct ExternalTheme(lumis::themes::Theme);

#[verifier::external_type_specification]
#[verifier::external_body]
pub struct ExternalStyle(lumis::themes::Style);

/// Whether the lumis theme registry knows a theme of this name.
pub uninterp spec fn theme_registered(name: Seq<char>) -> bool;

/// Relies on lumis::themes::get: the registry's theme of that name, if it has one.
#[verifier::external_body]
pub(crate) fn lookup_theme(name: &str) -> (r: Option<lumis::themes::Theme>)
    ensures
        r is Some == theme_registered(name@),
{
    lumis::themes::get(name).ok()
}

/// Relies on lumis::themes::Theme's public fields: builds the lumis form of a
/// theme given in full.
#[verifier::external_body]
pub(crate) fn lumis_theme(t: &ExTheme) -> lumis::themes::Theme {
    lumis::themes::Theme {
        name: t.name.clone(),
        appearance: match t.appearance {
            ExAppearance::Light => lumis::themes::Appearance::Light,
            ExAppearance::Dark => lumis::themes::Appearance::Dark,
        },
        revision: t.revision.clone(),
        highlights: t.highlights.iter().map(|(k, v)| (k.clone(), lumis_style(v))).collect(),
    }
}

/// Relies on lumis::themes::Style's public fields: the lumis form of a style.
#[verifier::external_body]
fn lumis_style(s: &ExStyle) -> Style {
    let underline = match s.text_decoration.underline {
        None => UnderlineStyle::None,
        Some(ExUnderlineStyle::Solid) => UnderlineStyle::Solid,
        Some(ExUnderlineStyle::Wavy) => UnderlineStyle::Wavy,
        Some(ExUnderlineStyle::Double) => UnderlineStyle::Double,
        Some(ExUnderlineStyle::Dotted) => UnderlineStyle::Dotted,
        Some(ExUnderlineStyle::Dashed) => UnderlineStyle::Dashed,
    };
    let text_decoration = TextDecoration { underline, strikethrough: s.text_decoration.strikethrough };
    Style { fg: s.fg.clone(), bg: s.bg.clone(), bold: s.bold, italic: s.italic, text_decoration }
}

/// The CSS lumis writes for a scope of the registry's theme of that name (with
/// italic drawn or not, declarations joined by `separator`), where the theme has
/// a style for that scope.
pub uninterp spec fn registry_scope_css(
    name: Seq<char>,
    scope: Seq<char>,
    italic: bool,
    separator: Seq<char>,
) -> Option<Seq<char>>;

/// Whether the registry's theme of that name is a light one.
pub uninterp spec fn registry_light(name: Seq<char>) -> bool;

/// Relies on lumis::themes::get, lumis::themes::Theme::get_style and
/// lumis::themes::Style::css: the CSS of a scope of the registry's theme of that
/// name; `None` where the registry has no such theme or the theme no such style.
#[verifier::external_body]
pub(crate) fn registry_scope_css_of(name: &str, scope: &str, italic: bool, separator: &str) -> (r:
    Option<String>)
    ensures
        opt_view(r) == if theme_registered(name@) {
            registry_scope_css(name@, scope@, italic, separator@)
        } else {
            None
        },
{
    let t = lumis::themes::get(name).ok()?;
    t.get_style(scope).map(|s| s.css(italic, separator))
}

/// Relies on lumis::themes::get and the theme's public `appearance` field:
/// whether the registry's theme of that name is light; `None` where the registry
/// has none of that name.
#[verifier::external_body]
pub(crate) fn registry_theme_light(name: &str) -> (r: Option<bool>)
    ensures
        r is Some == theme_registered(name@),
        r matches Some(b) ==> b == registry_light(name@),
{
    let t = lumis::themes::get(name).ok()?;
    match t.appearance {
        lumis::themes::Appearance::Light => Some(true),
        lumis::themes::Appearance::Dark => Some(false),
    }
}

/// Relies on lumis::themes::Theme::get_style and lumis::themes::Style::css: the
/// CSS of a scope of a theme given in full, where it has a style for it.
#[verifier::external_body]
pub(crate) fn given_scope_css(t: &ExTheme, scope: &str, italic: bool, separator: &str) -> Option<
    String,
> {
    lumis_theme(t).get_style(scope).map(|s| s.css(italic, separator))
}

/// The scope whose style highlighted lines take from a theme.
pub open spec fn highlighted_scope() -> Seq<char> {
    "highlighted"@
}

/// The name of the theme drawn with when nothing else names one.
pub open spec fn default_theme_name() -> Seq<char> {
    "onedark"@
}

/// Which theme a block is drawn with.
#[derive(Debug, Clone)]
pub enum ThemeChoice {
    /// The registry's theme of this name.
    Named(String),
    /// The theme the formatter configuration gives in full.
    Configured,
}

/// What a theme choice stands for.
pub enum ThemeChoiceView {
    Named(Seq<char>),
    Configured,
}

impl ThemeChoice {
    pub open spec fn view(&self) -> ThemeChoiceView {
        match self {
            ThemeChoice::Named(n) => ThemeChoiceView::Named(n@),
            ThemeChoice::Configured => ThemeChoiceView::Configured,
        }
    }
}

pub open spec fn choice_view(c: Option<ThemeChoice>) -> Option<ThemeChoiceView> {
    match c {
        Some(t) => Some(t.view()),
        None => None,
    }
}

/// The theme a block is drawn with. Highest first: the decorator's `theme=`, when
/// the registry knows it; the formatter's theme (given in full, or a name the
/// registry knows); the default theme. Back ends that draw no colours get none.
pub open spec fn theme_choice(
    decorator: Option<Seq<char>>,
    configured: Option<ThemeOrString>,
    needs_theme: bool,
) -> Option<ThemeChoiceView> {
    if !needs_theme {
        None
    } else if decorator is Some && theme_registered(decorator->0) {
        Some(ThemeChoiceView::Named(decorator->0))
    } else {
        match configured {
            Some(ThemeOrString::Theme(_)) => Some(ThemeChoiceView::Configured),
            Some(ThemeOrString::String(n)) => if theme_registered(n@) {
                Some(ThemeChoiceView::Named(n@))
            } else {
                Some(ThemeChoiceView::Named(default_theme_name()))
            },
            None => Some(ThemeChoiceView::Named(default_theme_name())),
        }
    }
}

/// A decorator's `theme=` overrides the formatter's theme, which overrides the
/// default; a name the registry does not know is passed over, never an error, and
/// a back end that draws with colours always gets a theme.
pub proof fn lemma_theme_precedence(
    decorator: Option<Seq<char>>,
    configured: Option<ThemeOrString>,
    needs_theme: bool,
)
    ensures
        needs_theme && decorator is Some && theme_registered(decorator->0) ==> theme_choice(
            decorator,
            configured,
            needs_theme,
        ) == Some(ThemeChoiceView::Named(decorator->0)),
        !(decorator is Some && theme_registered(decorator->0)) ==> theme_choice(
            decorator,
            configured,
            needs_theme,
        ) == theme_choice(None, configured, needs_theme),
        needs_theme ==> (configured matches Some(ThemeOrString::Theme(_)) ==> theme_choice(
            None,
            configured,
            needs_theme,
        ) == Some(ThemeChoiceView::Configured)),
        needs_theme ==> (configured matches Some(ThemeOrString::String(n)) ==> (theme_registered(
            n@,
        ) ==> theme_choice(None, configured, needs_theme) == Some(ThemeChoiceView::Named(n@)))),
        needs_theme && configured is None ==> theme_choice(None, configured, needs_theme) == Some(
            ThemeChoiceView::Named(default_theme_name()),
        ),
        needs_theme ==> theme_choice(decorator, configured, needs_theme) is Some,
{
}

/// The theme choice for a decorator `theme=` value and a formatter configuration.
pub fn choose_theme(decorator: Option<&str>, formatter: &ExFormatterOption) -> (r: Option<
    ThemeChoice,
>)
    ensures
        choice_view(r) == theme_choice(
            match decorator {
                Some(d) => Some(d@),
                None => None,
            },
            formatter.spec_configured_theme(),
            formatter.needs_theme(),
        ),
{
    if let ExFormatterOption::HtmlLinked { .. } = formatter {
        return None;
    }
    if let Some(name) = decorator {
        if lookup_theme(name).is_some() {
            return Some(ThemeChoice::Named(name.to_owned()));
        }
    }
    let configured = match formatter {
        ExFormatterOption::HtmlInline { theme, .. } => theme,
        ExFormatterOption::Terminal { theme } => theme,
        _ => &None,
    };
    match configured {
        Some(ThemeOrString::Theme(_)) => Some(ThemeChoice::Configured),
        Some(ThemeOrString::String(n)) => {
            if lookup_theme(n.as_str()).is_some() {
                Some(ThemeChoice::Named(n.clone()))
            } else {
                Some(ThemeChoice::Named("onedark".to_owned()))
            }
        },
        None => Some(ThemeChoice::Named("onedark".to_owned())),
    }
}

/// The lumis theme a choice stands for.
pub(crate) fn materialize_theme(choice: &Option<ThemeChoice>, formatter: &ExFormatterOption) -> (r:
    Option<lumis::themes::Theme>)
    requires
        choice matches Some(ThemeChoice::Configured) ==> formatter.spec_configured_theme() matches Some(
            ThemeOrString::Theme(_),
        ),
    ensures
        choice is None ==> r is None,
        choice matches Some(ThemeChoice::Named(n)) ==> (r is Some == theme_registered(n@)),
        choice matches Some(ThemeChoice::Configured) ==> r is Some,
{
    match choice {
        None => None,
        Some(ThemeChoice::Named(n)) => lookup_theme(n.as_str()),
        Some(ThemeChoice::Configured) => match formatter {
            ExFormatterOption::HtmlInline { theme: Some(ThemeOrString::Theme(t)), .. }
            | ExFormatterOption::Terminal { theme: Some(ThemeOrString::Theme(t)) } => Some(
                lumis_theme(t),
            ),
            _ => None,
        },
    }
}

/// What the highlight-line resolver reads of a theme.
#[derive(Debug)]
pub struct ThemeFacts {
    /// The CSS of the theme's `highlighted` scope, where it has one.
    pub highlighted_css: Option<String>,
    /// Whether the theme is a light one.
    pub light: bool,
}

/// What the highlight-line resolver reads of the chosen theme: its `highlighted`
/// CSS and whether it is light. For a theme given in full, `given_css` stands
/// for the CSS lumis computes from its styles.
pub open spec fn choice_facts(
    c: Option<ThemeChoiceView>,
    configured: Option<ThemeOrString>,
    given_css: Option<Seq<char>>,
) -> Option<(Option<Seq<char>>, bool)> {
    match c {
        None => None,
        Some(ThemeChoiceView::Named(n)) => if theme_registered(n) {
            Some((registry_scope_css(n, highlighted_scope(), true, " "@), registry_light(n)))
        } else {
            None
        },
        Some(ThemeChoiceView::Configured) => match configured {
            Some(ThemeOrString::Theme(t)) => Some((given_css, t.appearance == ExAppearance::Light)),
            _ => None,
        },
    }
}

/// What the highlight-line resolver reads of the chosen theme.
pub(crate) fn theme_facts(choice: &Option<ThemeChoice>, formatter: &ExFormatterOption) -> (r: Option<
    ThemeFacts,
>)
    requires
        choice matches Some(ThemeChoice::Configured) ==> formatter.spec_configured_theme() matches Some(
            ThemeOrString::Theme(_),
        ),
    ensures
        exists|css: Option<Seq<char>>|
            facts_view(r) == choice_facts(
                choice_view(*choice),
                formatter.spec_configured_theme(),
                css,
            ),
{
    match choice {
        None => None,
        Some(ThemeChoice::Named(n)) => match registry_theme_light(n.as_str()) {
            Some(light) => {
                let css = registry_scope_css_of(n.as_str(), "highlighted", true, " ");
                Some(ThemeFacts { highlighted_css: css, light })
            },
            None => None,
        },
        Some(ThemeChoice::Configured) => match formatter {
            ExFormatterOption::HtmlInline { theme: Some(ThemeOrString::Theme(t)), .. }
            | ExFormatterOption::Terminal { theme: Some(ThemeOrString::Theme(t)) } => {
                let css = given_scope_css(t, "highlighted", true, " ");
                let light = match t.appearance {
                    ExAppearance::Light => true,
                    ExAppearance::Dark => false,
                };
                let r = Some(ThemeFacts { highlighted_css: css, light });
                assert(facts_view(r) == choice_facts(
                    choice_view(*choice),
                    formatter.spec_configured_theme(),
                    opt_view(r->0.highlighted_css),
                ));
                r
            },
            _ => None,
        },
    }
}

} // verus!
