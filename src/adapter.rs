//! The code-fence adapter: the three phases a host renderer calls per code block.
use vstd::prelude::*;

use std::collections::HashMap;

use crate::attributes::{decorator_attrs, parse_custom_attributes, Attributes};
use crate::config::{clone_opt, opt_view, ExFormatterOption, ThemeOrString};
use crate::highlight_lines::{
    config_view, facts_view, highlight_lines_config, line_config, map_get, HighlightLineConfig,
    LineConfigView,
};
use crate::language::{guess_language, guessed_language, plaintext_id};
use crate::lumis_out::{
    code_tag_html, code_tag_of, highlight_segments, lumis_theme_map, multi_themes_pre_tag_html,
    pre_tag_html, registry_pre_tag, span_inline_html, span_linked_html, span_multi_themes_html, terminal_text,
};
use crate::lumis_out::segment_view;
use crate::render::{
    bounds_view, char_byte_offsets, cut_source, escape_html, is_blank, is_span_run,
    lemma_tiles_view, lemma_utf8_offsets_len, line_bounds, tiles_view, line_runs, lines_html, linked_span, piece_view,
    pieces_from_segments, pieces_view, push_escaped, run_html, runs_html, source_line_bounds,
    source_lines, spans_drawn, drawn_span, utf8_offsets, wrap_lines, Piece, Segment, SpanWriter,
};
use crate::text::{chars_of, is_ws, is_ws_exec, push_str, str_eq, string_of_range};
use crate::theme::{
    choice_facts, choose_theme, materialize_theme, theme_choice, theme_facts, ThemeChoice,
    ThemeChoiceView,
};

verus! {

/// A code block could not be rendered.
#[derive(Debug, PartialEq, Eq, Structural)]
pub struct FormatError;

pub open spec fn attrs_view(a: Option<Attributes>) -> Option<Map<Seq<char>, Seq<char>>> {
    match a {
        Some(x) => Some(x@),
        None => None,
    }
}

/// The decorator attributes a phase stores: those of the decorator string it
/// sees, where that string gives some; else what was stored before.
pub open spec fn attrs_after(
    stored: Option<Map<Seq<char>, Seq<char>>>,
    meta: Option<Seq<char>>,
) -> Option<Map<Seq<char>, Seq<char>>> {
    match meta {
        Some(m) => match decorator_attrs(m) {
            Some(a) => Some(a),
            None => stored,
        },
        None => stored,
    }
}

/// Supplying the same decorator string a second time, through another phase,
/// leaves the stored attributes as the first supply made them.
pub proof fn lemma_decorator_idempotent(stored: Option<Map<Seq<char>, Seq<char>>>, meta: Seq<char>)
    ensures
        attrs_after(attrs_after(stored, Some(meta)), Some(meta)) == attrs_after(
            stored,
            Some(meta),
        ),
        attrs_after(attrs_after(None, Some(meta)), Some(meta)) == decorator_attrs(meta),
{
}

/// The text after a `language-` prefix, or `plaintext` where there is none.
pub open spec fn class_language(class: Seq<char>) -> Seq<char> {
    let p = "language-"@;
    if p.len() <= class.len() && class.subrange(0, p.len() as int) == p {
        class.subrange(p.len() as int, class.len() as int)
    } else {
        plaintext_id()
    }
}

/// The language a tag's attributes name: `lang`, else the `language-` class,
/// else plain text.
pub open spec fn language_of_attrs(a: Map<Seq<char>, Seq<char>>) -> Seq<char> {
    if a.contains_key("lang"@) {
        guessed_language(a["lang"@], Seq::empty())
    } else if a.contains_key("class"@) {
        guessed_language(class_language(a["class"@]), Seq::empty())
    } else {
        guessed_language(plaintext_id(), Seq::empty())
    }
}

/// The language a code block is highlighted as: the one stored from its tags,
/// else the one the host's hint names, else plain text; the hint and the
/// fallback are guessed with the source text at hand.
pub open spec fn effective_language_of(
    stored: Option<Seq<char>>,
    hint: Option<Seq<char>>,
    source: Seq<char>,
) -> Seq<char> {
    match stored {
        Some(l) => l,
        None => match hint {
            Some(h) => guessed_language(h, source),
            None => guessed_language(plaintext_id(), source),
        },
    }
}

/// Whether a back end writes plain text unwrapped in spans.
pub open spec fn plain_mode(formatter: ExFormatterOption, language: Seq<char>) -> bool {
    language == plaintext_id() && (formatter.is_linked() || formatter.is_multi_themes())
}

/// What line `k`, at bounds `b`, holds: where spans are not drawn, its text
/// escaped; else the runs that fall in it, in order, a gap or a blank run as
/// escaped text and a scoped run as a span, the one the writer draws where that
/// is named.
pub open spec fn line_matches(
    source: Seq<char>,
    plain: bool,
    writer: SpanWriter,
    pieces: Seq<(int, int, Seq<char>)>,
    b: (int, int),
    content: Seq<char>,
) -> bool {
    if plain {
        content == escape_html(source.subrange(b.0, b.1))
    } else {
        exists|spans: Seq<Seq<char>>|
            #![trigger runs_html(source, line_runs(pieces, b.0, b.1), spans)]
            spans.len() == line_runs(pieces, b.0, b.1).len() && content == runs_html(
                source,
                line_runs(pieces, b.0, b.1),
                spans,
            ) && spans_drawn(source, line_runs(pieces, b.0, b.1), spans, writer)
    }
}

/// The body a highlighted block gets: one wrapper per source line, numbered
/// from 1, each around what `line_matches` says its line holds.
pub open spec fn body_matches(
    out: Seq<char>,
    cfg: Option<LineConfigView>,
    source: Seq<char>,
    plain: bool,
    writer: SpanWriter,
    pieces: Seq<(int, int, Seq<char>)>,
) -> bool {
    exists|contents: Seq<Seq<char>>|
        #![trigger lines_html(cfg, contents)]
        out == lines_html(cfg, contents) && contents.len() == source_lines(source).len()
            && forall|k: int|
            0 <= k < contents.len() ==> line_matches(
                source,
                plain,
                writer,
                pieces,
                source_line_bounds(source)[k],
                #[trigger] contents[k],
            )
}

/// What the span writer needs besides the text.
struct SpanContext {
    language: String,
    theme: Option<lumis::themes::Theme>,
    theme_name: Option<String>,
    linked: bool,
    multi: bool,
    italic: bool,
    include_highlights: bool,
    themes: HashMap<String, lumis::themes::Theme>,
    default_theme: Option<String>,
    prefix: String,
}

impl SpanContext {
    spec fn writer(&self) -> SpanWriter {
        if self.linked {
            SpanWriter::Linked
        } else if !self.multi && self.theme is None && self.theme_name is Some {
            SpanWriter::Inline {
                language: self.language@,
                theme: self.theme_name->0@,
                italic: self.italic,
                include_highlights: self.include_highlights,
            }
        } else {
            SpanWriter::Unnamed
        }
    }
}

/// The code-fence adapter. It keeps, across the phases of one block, the
/// decorator attributes and the language its tags named.
#[derive(Debug)]
pub struct LumisAdapter {
    formatter_config: ExFormatterOption,
    stored_attrs: Option<Attributes>,
    stored_lang: Option<String>,
}

impl Default for LumisAdapter {
    fn default() -> (r: Self)
        ensures
            r.config() matches ExFormatterOption::HtmlInline {
                theme: None,
                pre_class: None,
                italic: false,
                include_highlights: false,
                highlight_lines: None,
                header: None,
            },
            r.stored_attrs_view() is None,
            r.stored_lang_view() is None,
    {
        LumisAdapter::new(ExFormatterOption::default())
    }
}

impl LumisAdapter {
    pub closed spec fn config(&self) -> ExFormatterOption {
        self.formatter_config
    }

    pub closed spec fn stored_attrs_view(&self) -> Option<Map<Seq<char>, Seq<char>>> {
        attrs_view(self.stored_attrs)
    }

    pub closed spec fn stored_lang_view(&self) -> Option<Seq<char>> {
        opt_view(self.stored_lang)
    }

    /// The class for `<pre>`: the decorator's `pre_class`, else the formatter's.
    pub open spec fn spec_resolved_pre_class(&self) -> Option<Seq<char>> {
        match self.stored_attrs_view() {
            Some(a) if a.contains_key("pre_class"@) => Some(a["pre_class"@]),
            _ => self.config().spec_pre_class(),
        }
    }

    /// The theme the block is drawn with (see `theme_choice`).
    pub open spec fn spec_theme_choice(&self) -> Option<ThemeChoiceView> {
        theme_choice(
            match self.stored_attrs_view() {
                Some(a) => map_get(a, "theme"@),
                None => None,
            },
            self.config().spec_configured_theme(),
            self.config().needs_theme(),
        )
    }

    /// An adapter for a formatter configuration, with nothing stored yet.
    pub fn new(formatter_config: ExFormatterOption) -> (r: Self)
        ensures
            r.config() == formatter_config,
            r.stored_attrs_view() is None,
            r.stored_lang_view() is None,
    {
        LumisAdapter { formatter_config, stored_attrs: None, stored_lang: None }
    }

    /// The decorator attributes of a tag's `data-meta` attribute.
    pub fn custom_attrs(attributes: &Attributes) -> (r: Option<Attributes>)
        ensures
            attrs_view(r) == match map_get(attributes@, "data-meta"@) {
                Some(m) => decorator_attrs(m),
                None => None,
            },
    {
        match attributes.get("data-meta") {
            Some(info) => parse_custom_attributes(info.as_str()),
            None => None,
        }
    }

    /// The language a tag's attributes name.
    pub fn language_from_attrs(attributes: &Attributes) -> (r: String)
        ensures
            r@ == language_of_attrs(attributes@),
    {
        proof {
            reveal_strlit("");
            assert(""@ =~= Seq::<char>::empty());
        }
        if let Some(lang) = attributes.get("lang") {
            guess_language(lang.as_str(), "")
        } else if let Some(class) = attributes.get("class") {
            let language = strip_language_prefix(class.as_str());
            guess_language(language.as_str(), "")
        } else {
            guess_language("plaintext", "")
        }
    }

    /// The decorator attribute `key`, where one is stored.
    fn decorator_value(&self, key: &str) -> (r: Option<String>)
        ensures
            opt_view(r) == match self.stored_attrs_view() {
                Some(a) => map_get(a, key@),
                None => None,
            },
    {
        match &self.stored_attrs {
            Some(a) => a.get(key),
            None => None,
        }
    }

    /// The class for `<pre>`: the decorator's `pre_class`, else the formatter's.
    pub fn pre_class(&self) -> (r: Option<String>)
        ensures
            opt_view(r) == self.spec_resolved_pre_class(),
    {
        match self.decorator_value("pre_class") {
            Some(c) => Some(c),
            None => self.formatter_config.pre_class(),
        }
    }

    /// Whether spans carry their scope name: a decorator `include_highlights`
    /// turns it on; else the formatter decides.
    pub fn should_include_highlights(&self) -> (r: bool)
        ensures
            r == (match self.stored_attrs_view() {
                Some(a) => a.contains_key("include_highlights"@),
                None => false,
            } || self.config().spec_include_highlights()),
    {
        let from_decorator = match &self.stored_attrs {
            Some(a) => a.contains_key("include_highlights"),
            None => false,
        };
        from_decorator || self.formatter_config.include_highlights()
    }

    /// Which theme the block is drawn with (see `theme_choice`).
    pub fn resolve_theme(&self) -> (r: Option<ThemeChoice>)
        ensures
            crate::theme::choice_view(r) == self.spec_theme_choice(),
    {
        let name = self.decorator_value("theme");
        match name {
            Some(n) => choose_theme(Some(n.as_str()), &self.formatter_config),
            None => choose_theme(None, &self.formatter_config),
        }
    }

    /// The language a block is highlighted as.
    pub fn effective_language(&self, hint: Option<&str>, source: &str) -> (r: String)
        ensures
            r@ == effective_language_of(
                self.stored_lang_view(),
                match hint {
                    Some(h) => Some(h@),
                    None => None,
                },
                source@,
            ),
    {
        match &self.stored_lang {
            Some(l) => l.clone(),
            None => match hint {
                Some(h) => guess_language(h, source),
                None => guess_language("plaintext", source),
            },
        }
    }

    /// The opening phase: stores the decorator attributes of the block's
    /// `data-meta` and the language of its `lang` (what the previous block left is
    /// dropped), then writes `<pre>` with the resolved class and theme. The
    /// terminal back end writes nothing.
    pub fn write_pre_tag(&mut self, attributes: &Attributes) -> (r: Result<String, FormatError>)
        ensures
            final(self).config() == old(self).config(),
            final(self).stored_attrs_view() == attrs_after(
                None,
                map_get(attributes@, "data-meta"@),
            ),
            final(self).stored_lang_view() == match map_get(attributes@, "lang"@) {
                Some(l) => Some(guessed_language(l, Seq::empty())),
                None => None,
            },
            r is Ok,
            old(self).config() is Terminal ==> (r matches Ok(s) && s@.len() == 0),
            !(old(self).config() is Terminal) && !(old(self).config() is HtmlMultiThemes) && !(
            final(self).spec_theme_choice() == Some(ThemeChoiceView::Configured)) ==> (r matches Ok(
                s,
            ) ==> s@ == registry_pre_tag(
                final(self).spec_resolved_pre_class(),
                match final(self).spec_theme_choice() {
                    Some(ThemeChoiceView::Named(n)) => Some(n),
                    _ => None,
                },
            )),
    {
        proof {
            reveal_strlit("");
            assert(""@ =~= Seq::<char>::empty());
        }
        self.stored_attrs = LumisAdapter::custom_attrs(attributes);
        self.stored_lang = match attributes.get("lang") {
            Some(l) => Some(guess_language(l.as_str(), "")),
            None => None,
        };
        if let ExFormatterOption::Terminal { .. } = &self.formatter_config {
            return Ok(String::new());
        }
        let pre_class = self.pre_class();
        let out = match &self.formatter_config {
            ExFormatterOption::HtmlMultiThemes { themes, default_theme, css_variable_prefix, .. } => {
                let map = lumis_theme_map(themes);
                let prefix = multi_themes_prefix(css_variable_prefix);
                let default_name = match default_theme {
                    Some(d) => Some(d.as_str()),
                    None => None,
                };
                match &pre_class {
                    Some(c) => multi_themes_pre_tag_html(
                        Some(c.as_str()),
                        &map,
                        default_name,
                        prefix.as_str(),
                    ),
                    None => multi_themes_pre_tag_html(None, &map, default_name, prefix.as_str()),
                }
            },
            _ => {
                let choice = self.resolve_theme();
                let given = match (&choice, &self.formatter_config) {
                    (
                        Some(ThemeChoice::Configured),
                        ExFormatterOption::HtmlInline { theme: Some(ThemeOrString::Theme(t)), .. },
                    ) => Some(t),
                    (
                        Some(ThemeChoice::Configured),
                        ExFormatterOption::Terminal { theme: Some(ThemeOrString::Theme(t)) },
                    ) => Some(t),
                    _ => None,
                };
                let name = match &choice {
                    Some(ThemeChoice::Named(n)) => Some(n.as_str()),
                    _ => None,
                };
                match &pre_class {
                    Some(c) => pre_tag_html(Some(c.as_str()), name, given),
                    None => pre_tag_html(None, name, given),
                }
            },
        };
        match out {
            Some(s) => Ok(s),
            None => Err(FormatError),
        }
    }

    /// The second phase: stores the decorator attributes of `data-meta` where it
    /// gives some, and the language of the tag's attributes only where no
    /// language is stored yet; then writes `<code>` tagged with the stored
    /// language. The terminal back end writes nothing.
    pub fn write_code_tag(&mut self, attributes: &Attributes) -> (r: Result<String, FormatError>)
        ensures
            final(self).config() == old(self).config(),
            final(self).stored_attrs_view() == attrs_after(
                old(self).stored_attrs_view(),
                map_get(attributes@, "data-meta"@),
            ),
            final(self).stored_lang_view() == match old(self).stored_lang_view() {
                Some(l) => Some(l),
                None => if attributes@.dom() == Set::<Seq<char>>::empty() {
                    None
                } else {
                    Some(language_of_attrs(attributes@))
                },
            },
            !(old(self).config() is Terminal) ==> (r matches Ok(s) ==> s@ == code_tag_of(
                match final(self).stored_lang_view() {
                    Some(l) => l,
                    None => language_of_attrs(attributes@),
                },
            )),
            r is Ok,
            old(self).config() is Terminal ==> (r matches Ok(s) && s@.len() == 0),
    {
        if let Some(attrs) = LumisAdapter::custom_attrs(attributes) {
            self.stored_attrs = Some(attrs);
        }
        let lang = LumisAdapter::language_from_attrs(attributes);
        if self.stored_lang.is_none() && !attributes.is_empty() {
            self.stored_lang = Some(lang.clone());
        }
        if let ExFormatterOption::Terminal { .. } = &self.formatter_config {
            return Ok(String::new());
        }
        let effective = match &self.stored_lang {
            Some(l) => l.clone(),
            None => lang,
        };
        match code_tag_html(effective.as_str()) {
            Some(s) => Ok(s),
            None => Err(FormatError),
        }
    }

    /// Whether spans carry their scope name.
    pub open spec fn spec_include_highlights_resolved(&self) -> bool {
        (match self.stored_attrs_view() {
            Some(a) => a.contains_key("include_highlights"@),
            None => false,
        }) || self.config().spec_include_highlights()
    }

    /// What is known of the spans the highlight phase draws: lumis's class spans
    /// for the linked back end; lumis's inline spans with the chosen registry
    /// theme for the inline and terminal back ends.
    pub open spec fn spec_writer(&self, language: Seq<char>) -> SpanWriter {
        if self.config().is_linked() {
            SpanWriter::Linked
        } else if !self.config().is_multi_themes() && self.spec_theme_choice() is Some
            && self.spec_theme_choice()->0 is Named {
            SpanWriter::Inline {
                language,
                theme: self.spec_theme_choice()->0->Named_0,
                italic: self.config().spec_italic(),
                include_highlights: self.spec_include_highlights_resolved(),
            }
        } else {
            SpanWriter::Unnamed
        }
    }

    /// The language this phase would highlight a block in.
    pub open spec fn spec_language(&self, lang: Option<&str>, source: &str) -> Seq<char> {
        effective_language_of(
            self.stored_lang_view(),
            match lang {
                Some(h) => Some(h@),
                None => None,
            },
            source@,
        )
    }

    /// What the highlight phase writes for a source in a language, given the
    /// highlighter's events: the runs they cut tile the source, and the body is
    /// one wrapper per source line around what `line_matches` says the line
    /// holds, highlighted as the resolved settings say (the highlight style drawn
    /// from the resolved theme).
    pub open spec fn highlighted_body(
        &self,
        out: Seq<char>,
        language: Seq<char>,
        source: Seq<char>,
        events: Seq<(usize, usize, Seq<char>)>,
    ) -> bool {
        &&& tiles_view(
            cut_source(source.len() as int, utf8_offsets(source), events),
            source.len() as int,
        )
        &&& exists|css: Option<Seq<char>>|
            #![trigger choice_facts(self.spec_theme_choice(), self.config().spec_configured_theme(), css)]
            body_matches(
                out,
                line_config(
                    self.stored_attrs_view(),
                    self.config(),
                    choice_facts(self.spec_theme_choice(), self.config().spec_configured_theme(), css),
                ),
                source,
                plain_mode(self.config(), language),
                self.spec_writer(language),
                cut_source(source.len() as int, utf8_offsets(source), events),
            )
    }

    /// Writes the line-wrapped body of a source in a language from the events the
    /// highlighter gave for it.
    pub fn render_segments(&self, language: &str, source: &str, segments: &Vec<Segment>) -> (r:
        String)
        ensures
            self.highlighted_body(
                r@,
                language@,
                source@,
                segments@.map_values(|s: Segment| segment_view(s)),
            ),
    {
        let choice = self.resolve_theme();
        let theme = materialize_theme(&choice, &self.formatter_config);
        let facts = theme_facts(&choice, &self.formatter_config);
        let cfg = highlight_lines_config(&self.stored_attrs, &self.formatter_config, &facts);
        let plain = str_eq(language, "plaintext") && (self.formatter_config.is_linked_exec()
            || self.formatter_config.is_multi_themes_exec());
        let ctx = self.span_context(language.to_owned(), &choice, theme);
        render_body(&ctx, source, segments, &cfg, plain)
    }

    /// The last phase: highlights the source and writes it line by line, each
    /// line in its own element numbered from 1, with the highlight class and
    /// style on the lines the resolved settings name. Plain text for the linked
    /// and multi-theme back ends needs no highlighter and always succeeds;
    /// otherwise it fails where the highlighter fails. The terminal back end
    /// writes ANSI-coloured text instead.
    pub fn write_highlighted(&self, lang: Option<&str>, source: &str) -> (r: Result<
        String,
        FormatError,
    >)
        ensures
            !(self.config() is Terminal) && plain_mode(self.config(), self.spec_language(lang, source))
                ==> r is Ok,
            !(self.config() is Terminal) ==> (r matches Ok(out) ==> exists|
                events: Seq<(usize, usize, Seq<char>)>,
            |
                #![trigger self.highlighted_body(out@, self.spec_language(lang, source), source@, events)]
                self.highlighted_body(out@, self.spec_language(lang, source), source@, events)),
    {
        let language = self.effective_language(lang, source);
        if let ExFormatterOption::Terminal { .. } = &self.formatter_config {
            let choice = self.resolve_theme();
            let theme = materialize_theme(&choice, &self.formatter_config);
            let (name, given) = match &choice {
                Some(ThemeChoice::Named(n)) => (Some(n.as_str()), None),
                _ => (None, theme),
            };
            return match terminal_text(source, language.as_str(), name, &given) {
                Some(s) => Ok(s),
                None => Err(FormatError),
            };
        }
        let plain = str_eq(language.as_str(), "plaintext") && (self.formatter_config.is_linked_exec()
            || self.formatter_config.is_multi_themes_exec());
        let segments = if plain {
            Vec::new()
        } else {
            match highlight_segments(source, language.as_str()) {
                Some(s) => s,
                None => {
                    return Err(FormatError);
                },
            }
        };
        let out = self.render_segments(language.as_str(), source, &segments);
        assert(language@ == self.spec_language(lang, source));
        assert(self.highlighted_body(
            out@,
            self.spec_language(lang, source),
            source@,
            segments@.map_values(|s: Segment| segment_view(s)),
        ));
        let r: Result<String, FormatError> = Ok(out);
        assert(r matches Ok(o) && o@ == out@);
        r
    }

    /// What the span writer needs: the language, the theme (by its registry
    /// name where it has one), the back end, and for the multi-theme back end its
    /// themes, default theme and variable prefix.
    fn span_context(
        &self,
        language: String,
        choice: &Option<ThemeChoice>,
        theme: Option<lumis::themes::Theme>,
    ) -> (r: SpanContext)
        requires
            crate::theme::choice_view(*choice) == self.spec_theme_choice(),
        ensures
            r.writer() == self.spec_writer(language@),
            r.language@ == language@,
            r.linked == self.config().is_linked(),
            r.multi == self.config().is_multi_themes(),
            r.italic == self.config().spec_italic(),
            r.include_highlights == self.spec_include_highlights_resolved(),
            self.config() matches ExFormatterOption::HtmlMultiThemes {
                themes,
                default_theme,
                css_variable_prefix,
                ..
            } ==> r.themes@.dom() == themes@.dom() && opt_view(r.default_theme) == opt_view(
                default_theme,
            ) && r.prefix@ == match css_variable_prefix {
                Some(p) => p@,
                None => "--lumis"@,
            },
    {
        let italic = self.formatter_config.italic_enabled();
        let include_highlights = self.should_include_highlights();
        let linked = self.formatter_config.is_linked_exec();
        let (theme, theme_name) = match choice {
            Some(ThemeChoice::Named(n)) => (None, Some(n.clone())),
            _ => (theme, None),
        };
        match &self.formatter_config {
            ExFormatterOption::HtmlMultiThemes { themes, default_theme, css_variable_prefix, .. } => {
                SpanContext {
                    language,
                    theme,
                    theme_name,
                    linked,
                    multi: true,
                    italic,
                    include_highlights,
                    themes: lumis_theme_map(themes),
                    default_theme: clone_opt(default_theme),
                    prefix: multi_themes_prefix(css_variable_prefix),
                }
            },
            _ => SpanContext {
                language,
                theme,
                theme_name,
                linked,
                multi: false,
                italic,
                include_highlights,
                themes: HashMap::new(),
                default_theme: None,
                prefix: String::new(),
            },
        }
    }
}

/// The CSS variable prefix of the multi-theme back end: the configured one, else
/// `--lumis`.
fn multi_themes_prefix(configured: &Option<String>) -> (r: String)
    ensures
        r@ == match *configured {
            Some(p) => p@,
            None => "--lumis"@,
        },
{
    match configured {
        Some(p) => p.clone(),
        None => "--lumis".to_owned(),
    }
}

/// The text after a `language-` prefix, or `plaintext`.
pub fn strip_language_prefix(class: &str) -> (r: String)
    ensures
        r@ == class_language(class@),
{
    let v = chars_of(class);
    let p = chars_of("language-");
    if p.len() > v.len() {
        return "plaintext".to_owned();
    }
    let mut i: usize = 0;
    while i < p.len()
        invariant
            i <= p.len() <= v.len(),
            v@ == class@,
            p@ == "language-"@,
            forall|j: int| 0 <= j < i ==> v@[j] == p@[j],
        decreases p.len() - i,
    {
        if v[i] != p[i] {
            assert(v@.subrange(0, p.len() as int)[i as int] != p@[i as int]);
            return "plaintext".to_owned();
        }
        i += 1;
    }
    assert(v@.subrange(0, p.len() as int) =~= p@);
    string_of_range(&v, p.len(), v.len())
}

/// Whether `[lo, hi)` of `v` is white space only.
fn blank(v: &Vec<char>, lo: usize, hi: usize) -> (r: bool)
    requires
        lo <= hi <= v.len(),
    ensures
        r == is_blank(v@.subrange(lo as int, hi as int)),
{
    let mut i = lo;
    while i < hi
        invariant
            lo <= i <= hi <= v.len(),
            forall|j: int| lo <= j < i ==> is_ws(#[trigger] v@[j]),
        decreases hi - i,
    {
        if !is_ws_exec(v[i]) {
            assert(!is_ws(v@.subrange(lo as int, hi as int)[i - lo]));
            return false;
        }
        i += 1;
    }
    assert forall|j: int| 0 <= j < hi - lo implies is_ws(
        #[trigger] v@.subrange(lo as int, hi as int)[j],
    ) by {
        assert(v@.subrange(lo as int, hi as int)[j] == v@[lo + j]);
    }
    true
}

/// Appends one run of a line: escaped text where no scope covers it or it is
/// blank, else the back end's span, which it hands back.
fn push_fragment(
    ctx: &SpanContext,
    out: &mut String,
    v: &Vec<char>,
    lo: usize,
    hi: usize,
    scope: &str,
) -> (span: Ghost<Seq<char>>)
    requires
        lo <= hi <= v.len(),
    ensures
        final(out)@ == old(out)@ + run_html(v@, (lo as int, hi as int, scope@), span@),
        is_span_run(v@, (lo as int, hi as int, scope@)) && drawn_span(
            ctx.writer(),
            v@.subrange(lo as int, hi as int),
            scope@,
        ) is Some ==> span@ == drawn_span(ctx.writer(), v@.subrange(lo as int, hi as int), scope@)->0,
{
    if scope.is_empty() || blank(v, lo, hi) {
        push_escaped(out, v, lo, hi);
        return Ghost(Seq::empty());
    }
    let text = string_of_range(v, lo, hi);
    let span = if ctx.linked {
        span_linked_html(text.as_str(), scope)
    } else if ctx.multi {
        let default_theme = match &ctx.default_theme {
            Some(d) => Some(d.as_str()),
            None => None,
        };
        span_multi_themes_html(
            text.as_str(),
            scope,
            ctx.language.as_str(),
            &ctx.themes,
            default_theme,
            ctx.prefix.as_str(),
            ctx.italic,
            ctx.include_highlights,
        )
    } else {
        let name = match &ctx.theme_name {
            Some(n) => Some(n.as_str()),
            None => None,
        };
        span_inline_html(
            text.as_str(),
            ctx.language.as_str(),
            scope,
            name,
            &ctx.theme,
            ctx.italic,
            ctx.include_highlights,
        )
    };
    push_str(out, span.as_str());
    Ghost(span@)
}

/// The content of the line `[lo, hi)`: the parts of the runs that fall in it,
/// and the span each scoped part was drawn as.
fn line_content(ctx: &SpanContext, v: &Vec<char>, pieces: &Vec<Piece>, lo: usize, hi: usize) -> (r: (
    String,
    Ghost<Seq<Seq<char>>>,
))
    requires
        lo <= hi <= v.len(),
    ensures
        r.1@.len() == line_runs(pieces_view(pieces@), lo as int, hi as int).len(),
        r.0@ == runs_html(v@, line_runs(pieces_view(pieces@), lo as int, hi as int), r.1@),
        spans_drawn(v@, line_runs(pieces_view(pieces@), lo as int, hi as int), r.1@, ctx.writer()),
{
    let ghost pv = pieces_view(pieces@);
    let mut out = String::new();
    let mut spans: Ghost<Seq<Seq<char>>> = Ghost(Seq::empty());
    let mut i: usize = 0;
    assert(pv.subrange(0, 0) =~= Seq::<(int, int, Seq<char>)>::empty());
    while i < pieces.len()
        invariant
            lo <= hi <= v.len(),
            i <= pieces.len(),
            pv == pieces_view(pieces@),
            spans@.len() == line_runs(pv.subrange(0, i as int), lo as int, hi as int).len(),
            out@ == runs_html(v@, line_runs(pv.subrange(0, i as int), lo as int, hi as int), spans@),
            spans_drawn(v@, line_runs(pv.subrange(0, i as int), lo as int, hi as int), spans@, ctx.writer()),
        decreases pieces.len() - i,
    {
        let p = &pieces[i];
        let ghost runs0 = line_runs(pv.subrange(0, i as int), lo as int, hi as int);
        let ghost spans0 = spans@;
        assert(pv.subrange(0, i + 1).drop_last() =~= pv.subrange(0, i as int));
        assert(pv.subrange(0, i + 1).last() == piece_view(pieces@[i as int]));
        let a = if p.start > lo {
            p.start
        } else {
            lo
        };
        let b = if p.end < hi {
            p.end
        } else {
            hi
        };
        if a < b {
            let span = push_fragment(ctx, &mut out, v, a, b, p.scope.as_str());
            spans = Ghost(spans@.push(span@));
            proof {
                let runs1 = runs0.push((a as int, b as int, p.scope@));
                assert(runs1.drop_last() =~= runs0);
                assert(spans@.drop_last() =~= spans0);
                assert forall|j: int|
                    0 <= j < runs1.len() && is_span_run(v@, #[trigger] runs1[j]) && drawn_span(
                        ctx.writer(),
                        v@.subrange(runs1[j].0, runs1[j].1),
                        runs1[j].2,
                    ) is Some implies spans@[j] == drawn_span(
                    ctx.writer(),
                    v@.subrange(runs1[j].0, runs1[j].1),
                    runs1[j].2,
                )->0 by {
                    if j < runs0.len() {
                        assert(runs1[j] == runs0[j]);
                        assert(spans@[j] == spans0[j]);
                    }
                }
            }
        }
        i += 1;
    }
    assert(pv.subrange(0, i as int) =~= pv);
    (out, spans)
}

/// The line-wrapped body of a source from its highlight events.
fn render_body(
    ctx: &SpanContext,
    source: &str,
    segments: &Vec<crate::render::Segment>,
    cfg: &Option<HighlightLineConfig>,
    plain: bool,
) -> (r: String)
    ensures
        tiles_view(
            cut_source(
                source@.len() as int,
                utf8_offsets(source@),
                segments@.map_values(|s: crate::render::Segment| segment_view(s)),
            ),
            source@.len() as int,
        ),
        body_matches(
            r@,
            config_view(*cfg),
            source@,
            plain,
            ctx.writer(),
            cut_source(
                source@.len() as int,
                utf8_offsets(source@),
                segments@.map_values(|s: crate::render::Segment| segment_view(s)),
            ),
        ),
{
    let v = chars_of(source);
    let offsets = char_byte_offsets(&v);
    proof {
        lemma_utf8_offsets_len(v@);
    }
    let pieces = pieces_from_segments(v.len(), &offsets, segments);
    proof {
        lemma_tiles_view(pieces@, v.len() as int);
    }
    let bounds = line_bounds(&v);
    let ghost pv = pieces_view(pieces@);
    let ghost lb = source_line_bounds(v@);
    let mut contents: Vec<String> = Vec::new();
    let mut k: usize = 0;
    while k < bounds.len()
        invariant
            k <= bounds.len(),
            bounds@.len() == source_lines(v@).len(),
            bounds_view(bounds@) == lb,
            lb == source_line_bounds(v@),
            pv == pieces_view(pieces@),
            v@ == source@,
            contents@.len() == k,
            forall|j: int|
                0 <= j < bounds@.len() ==> (#[trigger] bounds@[j]).0 <= bounds@[j].1 <= v.len(),
            forall|j: int|
                0 <= j < k ==> line_matches(
                    v@,
                    plain,
                    ctx.writer(),
                    pv,
                    lb[j],
                    #[trigger] contents@[j]@,
                ),
        decreases bounds.len() - k,
    {
        let (lo, hi) = bounds[k];
        assert(lb[k as int] == (lo as int, hi as int));
        let content = if plain {
            let mut s = String::new();
            push_escaped(&mut s, &v, lo, hi);
            assert(s@ =~= escape_html(v@.subrange(lo as int, hi as int)));
            s
        } else {
            let (c, spans) = line_content(ctx, &v, &pieces, lo, hi);
            assert(line_matches(v@, plain, ctx.writer(), pv, lb[k as int], c@)) by {
                let runs = line_runs(pv, lo as int, hi as int);
                assert(spans@.len() == runs.len() && c@ == runs_html(v@, runs, spans@)
                    && spans_drawn(v@, runs, spans@, ctx.writer()));
            }
            c
        };
        let ghost prev = contents@;
        contents.push(content);
        proof {
            assert forall|j: int| 0 <= j < k + 1 implies line_matches(
                v@,
                plain,
                ctx.writer(),
                pv,
                lb[j],
                #[trigger] contents@[j]@,
            ) by {
                if j < k {
                    assert(contents@[j] == prev[j]);
                }
            }
        }
        k += 1;
    }
    let out = wrap_lines(&contents, cfg);
    let ghost views = contents@.map_values(|c: String| c@);
    proof {
        assert(views.len() == source_lines(source@).len());
        assert forall|j: int| 0 <= j < views.len() implies line_matches(
            source@,
            plain,
            ctx.writer(),
            pv,
            source_line_bounds(source@)[j],
            #[trigger] views[j],
        ) by {
            assert(views[j] == contents@[j]@);
        }
    }
    out
}

} // verus!
