//! A simpler adapter: one registry theme, inline styles or classes, no decorators.
use vstd::prelude::*;

use crate::adapter::FormatError;
use crate::attributes::Attributes;
use crate::highlight_lines::map_get;
use crate::language::guess_language;
use crate::lumis_out::{code_tag_html, code_tag_of, pre_tag_html, registry_pre_tag};
use crate::text::{chars_of, find_char, first_index, string_of_range};
use crate::theme::{default_theme_name, lookup_theme, theme_registered};
use crate::language::guessed_language;

verus! {

/// The language a `class` attribute such as `language-rust` names: the text
/// between its first `-` and the next one, or `plaintext` where it has no `-`.
pub open spec fn class_token(c: Seq<char>) -> Seq<char> {
    match first_index(c, '-') {
        None => "plaintext"@,
        Some(i) => {
            let rest = c.subrange(i + 1, c.len() as int);
            match first_index(rest, '-') {
                Some(j) => rest.subrange(0, j),
                None => rest,
            }
        },
    }
}

/// An adapter drawing every block with one registry theme. It writes the `<pre>`
/// and `<code>` tags only; it has no highlight phase of its own.
pub struct InkjetAdapter {
    theme: String,
    inline_style: bool,
}

impl Default for InkjetAdapter {
    fn default() -> (r: Self)
        ensures
            r.theme_name() == default_theme_name(),
            r.inline_style(),
    {
        InkjetAdapter { theme: "onedark".to_owned(), inline_style: true }
    }
}

impl InkjetAdapter {
    pub closed spec fn theme_name(&self) -> Seq<char> {
        self.theme@
    }

    pub closed spec fn inline_style(&self) -> bool {
        self.inline_style
    }

    /// The name of the theme the adapter draws with.
    pub fn theme(&self) -> (r: &String)
        ensures
            r@ == self.theme_name(),
    {
        &self.theme
    }

    /// Whether spans carry inline styles rather than classes.
    pub fn uses_inline_style(&self) -> (r: bool)
        ensures
            r == self.inline_style(),
    {
        self.inline_style
    }

    /// An adapter for the registry theme of that name, or the default theme where
    /// the registry has none of that name.
    pub fn new(theme: &str, inline_style: bool) -> (r: Self)
        ensures
            r.theme_name() == if theme_registered(theme@) {
                theme@
            } else {
                default_theme_name()
            },
            r.inline_style() == inline_style,
    {
        let theme = if lookup_theme(theme).is_some() {
            theme.to_owned()
        } else {
            "onedark".to_owned()
        };
        InkjetAdapter { theme, inline_style }
    }

    /// The language token of a `class` attribute (`language-rust` gives `rust`).
    pub fn class_language(class: &str) -> (r: String)
        ensures
            r@ == class_token(class@),
    {
        let v = chars_of(class);
        let n = v.len();
        assert(v@.subrange(0, n as int) =~= v@);
        match find_char(&v, 0, n, '-') {
            None => {
                assert(first_index(class@, '-') is None);
                "plaintext".to_owned()
            },
            Some(i) => {
                assert(first_index(class@, '-') == Some(i as int));
                let ghost rest = v@.subrange(i + 1, n as int);
                assert(rest == class@.subrange(i + 1, class@.len() as int));
                match find_char(&v, i + 1, n, '-') {
                    Some(j) => {
                        assert(first_index(rest, '-') == Some(j - (i + 1)));
                        assert(rest.subrange(0, j - (i + 1)) =~= v@.subrange(i + 1, j as int));
                        string_of_range(&v, i + 1, j)
                    },
                    None => {
                        assert(first_index(rest, '-') is None);
                        string_of_range(&v, i + 1, n)
                    },
                }
            },
        }
    }

    /// The opening `<pre>`: with the theme's colours for inline styles.
    pub fn write_pre_tag(&self) -> (r: Result<String, FormatError>)
        ensures
            r is Ok,
            r matches Ok(s) ==> s@ == registry_pre_tag(
                None,
                if self.inline_style() {
                    Some(self.theme_name())
                } else {
                    None
                },
            ),
    {
        let name = if self.inline_style {
            Some(self.theme.as_str())
        } else {
            None
        };
        match pre_tag_html(None, name, None) {
            Some(s) => Ok(s),
            None => Err(FormatError),
        }
    }

    /// The opening `<code>` of the language the `class` attribute names
    /// (`language-plaintext` where it names none).
    pub fn write_code_tag(&self, attributes: &Attributes) -> (r: Result<String, FormatError>)
        ensures
            r is Ok,
            r matches Ok(s) ==> s@ == code_tag_of(
                guessed_language(
                    class_token(
                        match map_get(attributes@, "class"@) {
                            Some(c) => c,
                            None => "language-plaintext"@,
                        },
                    ),
                    ""@,
                ),
            ),
    {
        let token = match attributes.get("class") {
            Some(c) => InkjetAdapter::class_language(c.as_str()),
            None => InkjetAdapter::class_language("language-plaintext"),
        };
        let language = guess_language(token.as_str(), "");
        match code_tag_html(language.as_str()) {
            Some(s) => Ok(s),
            None => Err(FormatError),
        }
    }
}

} // verus!
