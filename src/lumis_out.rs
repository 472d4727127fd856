//! The markup lumis writes: tags, spans and terminal text.
use vstd::prelude::*;

use std::collections::HashMap;
use vstd::string::StringSliceAdditionalSpecFns;

use crate::config::ExTheme;
use crate::language::lumis_language;
use crate::render::Segment;
use crate::theme::lumis_theme;

verus! {

/// The opening `<code>` tag lumis writes for a language.
pub uninterp spec fn code_tag_of(language: Seq<char>) -> Seq<char>;

/// The `<span>` lumis's linked back end writes around a text of a scope.
pub uninterp spec fn linked_span(text: Seq<char>, scope: Seq<char>) -> Seq<char>;

/// Relies on lumis::html::open_code_tag: the `<code>` tag of a language, which
/// depends on the language alone.
/// Writing into a `Vec` cannot fail, and lumis writes UTF-8 with attribute names
/// of its own, so the tag is always there.
#[verifier::external_body]
pub(crate) fn code_tag_html(language: &str) -> (r: Option<String>)
    ensures
        r is Some,
        r matches Some(s) ==> s@ == code_tag_of(language@),
{
    let mut out: Vec<u8> = Vec::new();
    lumis::html::open_code_tag(&mut out, &lumis_language(language)).ok()?;
    String::from_utf8(out).ok()
}

/// The `<pre>` tag lumis writes for an extra class and a registry theme.
pub uninterp spec fn registry_pre_tag(pre_class: Option<Seq<char>>, theme: Option<Seq<char>>) -> Seq<
    char,
>;

/// Relies on lumis::html::open_pre_tag (and lumis::themes::get for a theme given
/// by name): the `<pre>` tag with the `lumis` class, the extra class and the
/// theme's colours. A theme given in full takes the place of the name. Writing
/// into a `Vec` cannot fail, so the tag is always there.
#[verifier::external_body]
pub(crate) fn pre_tag_html(pre_class: Option<&str>, name: Option<&str>, given: Option<&ExTheme>) -> (r:
    Option<String>)
    ensures
        r is Some,
        given is None ==> (r matches Some(s) ==> s@ == registry_pre_tag(
            match pre_class {
                Some(c) => Some(c@),
                None => None,
            },
            match name {
                Some(n) => Some(n@),
                None => None,
            },
        )),
{
    let theme = match given {
        Some(t) => Some(lumis_theme(t)),
        None => name.and_then(|n| lumis::themes::get(n).ok()),
    };
    let mut out: Vec<u8> = Vec::new();
    lumis::html::open_pre_tag(&mut out, pre_class, theme.as_ref()).ok()?;
    String::from_utf8(out).ok()
}

/// Relies on lumis::html::open_multi_themes_pre_tag: the `<pre>` tag that declares
/// the colours of every theme as CSS variables. Writing into a `Vec` cannot
/// fail, so the tag is always there.
#[verifier::external_body]
pub(crate) fn multi_themes_pre_tag_html(
    pre_class: Option<&str>,
    themes: &HashMap<String, lumis::themes::Theme>,
    default_theme: Option<&str>,
    prefix: &str,
) -> (r: Option<String>)
    ensures
        r is Some,
{
    let mut out: Vec<u8> = Vec::new();
    lumis::html::open_multi_themes_pre_tag(&mut out, pre_class, themes, default_theme, prefix).ok()?;
    String::from_utf8(out).ok()
}

/// Relies on lumis::themes::Theme's public fields: the lumis form of each theme
/// of a multi-theme configuration, under the same names.
#[verifier::external_body]
pub(crate) fn lumis_theme_map(themes: &HashMap<String, ExTheme>) -> (r: HashMap<
    String,
    lumis::themes::Theme,
>)
    ensures
        r@.dom() == themes@.dom(),
{
    themes.iter().map(|(k, v)| (k.clone(), lumis_theme(v))).collect()
}

/// Relies on lumis::html::span_linked: a span whose class names the scope.
#[verifier::external_body]
pub(crate) fn span_linked_html(text: &str, scope: &str) -> (r: String)
    ensures
        r@ == linked_span(text@, scope@),
{
    lumis::html::span_linked(text, scope)
}

/// The `<span>` lumis's inline back end writes around a text of a scope, in a
/// language, with the registry's theme of that name (none where the registry has
/// none of that name), italic styles drawn or not, the scope name carried or not.
pub uninterp spec fn inline_span(
    text: Seq<char>,
    scope: Seq<char>,
    language: Seq<char>,
    theme: Seq<char>,
    italic: bool,
    include_highlights: bool,
) -> Seq<char>;

/// Relies on lumis::html::span_inline (and lumis::themes::get for a theme given
/// by name): a span with the theme's style for the scope inline. A theme given
/// in full takes the place of the name.
#[verifier::external_body]
pub(crate) fn span_inline_html(
    text: &str,
    language: &str,
    scope: &str,
    name: Option<&str>,
    given: &Option<lumis::themes::Theme>,
    italic: bool,
    include_highlights: bool,
) -> (r: String)
    ensures
        given is None && name is Some ==> r@ == inline_span(
            text@,
            scope@,
            language@,
            name->0@,
            italic,
            include_highlights,
        ),
{
    let looked_up = match given {
        Some(_) => None,
        None => name.and_then(|n| lumis::themes::get(n).ok()),
    };
    let theme = given.as_ref().or(looked_up.as_ref());
    let language = Some(lumis_language(language));
    lumis::html::span_inline(text, language, scope, theme, italic, include_highlights)
}

/// Relies on lumis::html::span_multi_themes: a span referring to each theme's
/// colours through CSS variables.
#[verifier::external_body]
pub(crate) fn span_multi_themes_html(
    text: &str,
    scope: &str,
    language: &str,
    themes: &HashMap<String, lumis::themes::Theme>,
    default_theme: Option<&str>,
    prefix: &str,
    italic: bool,
    include_highlights: bool,
) -> String {
    let language = Some(lumis_language(language));
    lumis::html::span_multi_themes(
        text,
        scope,
        language,
        themes,
        default_theme,
        prefix,
        italic,
        include_highlights,
    )
}

pub open spec fn segment_view(s: Segment) -> (usize, usize, Seq<char>) {
    (s.start, s.end, s.scope@)
}

/// Relies on lumis::highlight::highlight_iter: the highlighter's events for a
/// source, each a byte range and the innermost scope over it; `None` where the
/// highlighter fails. lumis slices the source by each range before handing it
/// over, so every range lies within the source. Which events come back also
/// depends on a time budget, so nothing more is stated.
#[verifier::external_body]
pub(crate) fn highlight_segments(source: &str, language: &str) -> (r: Option<Vec<Segment>>)
    ensures
        r matches Some(v) ==> forall|i: int|
            0 <= i < v.len() ==> (#[trigger] v@[i]).start <= v@[i].end <= source.spec_bytes().len(),
{
    let mut out: Vec<Segment> = Vec::new();
    let lang = lumis_language(language);
    lumis::highlight::highlight_iter(source, lang, None, |_t, _l, range, scope, _s| {
        out.push(Segment { start: range.start, end: range.end, scope: scope.to_string() });
        Ok::<(), std::fmt::Error>(())
    }).ok()?;
    Some(out)
}

/// Relies on lumis::TerminalBuilder and lumis::write_highlight (and
/// lumis::themes::get for a theme given by name): the source coloured with ANSI
/// escape sequences; `None` where highlighting fails. A theme given in full takes
/// the place of the name. The output also depends on a time budget, so nothing
/// is stated of it.
#[verifier::external_body]
pub(crate) fn terminal_text(
    source: &str,
    language: &str,
    name: Option<&str>,
    given: &Option<lumis::themes::Theme>,
) -> Option<String> {
    let theme = match given {
        Some(t) => Some(t.clone()),
        None => name.and_then(|n| lumis::themes::get(n).ok()),
    };
    let mut builder = lumis::TerminalBuilder::new();
    let formatter = builder.language(lumis_language(language)).theme(theme).build().ok()?;
    let mut out: Vec<u8> = Vec::new();
    lumis::write_highlight(&mut out, source, formatter).ok()?;
    String::from_utf8(out).ok()
}

} // verus!
