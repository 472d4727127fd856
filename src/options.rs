//! Options a host passes for parsing, rendering, highlighting and sanitising.
use vstd::prelude::*;

use std::collections::HashMap;

use crate::config::ExFormatterOption;

verus! {

/// Markdown extensions to turn on.
#[derive(Debug, Default)]
pub struct ExExtensionOptions {
    pub strikethrough: bool,
    pub tagfilter: bool,
    pub table: bool,
    pub autolink: bool,
    pub tasklist: bool,
    pub superscript: bool,
    pub header_ids: Option<String>,
    pub footnotes: bool,
    pub description_lists: bool,
    pub front_matter_delimiter: Option<String>,
    pub multiline_block_quotes: bool,
    pub alerts: bool,
    pub math_dollars: bool,
    pub math_code: bool,
    pub shortcodes: bool,
    pub wikilinks_title_after_pipe: bool,
    pub wikilinks_title_before_pipe: bool,
    pub underline: bool,
    pub subscript: bool,
    pub spoiler: bool,
    pub greentext: bool,
    pub image_url_rewriter: Option<String>,
    pub link_url_rewriter: Option<String>,
    pub cjk_friendly_emphasis: bool,
}

/// Parsing options.
#[derive(Debug, Default)]
pub struct ExParseOptions {
    pub smart: bool,
    pub default_info_string: Option<String>,
    pub relaxed_tasklist_matching: bool,
    pub relaxed_autolinks: bool,
}

/// The marker of bullet lists written back as CommonMark.
#[derive(Clone, Copy, Debug, PartialEq, Eq, Structural)]
pub enum ExListStyleType {
    Dash,
    Plus,
    Star,
}

impl Default for ExListStyleType {
    fn default() -> (r: Self)
        ensures
            r == ExListStyleType::Dash,
    {
        ExListStyleType::Dash
    }
}

/// Rendering options.
#[derive(Debug, Default)]
pub struct ExRenderOptions {
    pub hardbreaks: bool,
    pub github_pre_lang: bool,
    pub full_info_string: bool,
    pub width: usize,
    pub unsafe_: bool,
    pub escape: bool,
    pub list_style: ExListStyleType,
    pub sourcepos: bool,
    pub escaped_char_spans: bool,
    pub ignore_setext: bool,
    pub ignore_empty_links: bool,
    pub gfm_quirks: bool,
    pub prefer_fenced: bool,
    pub figure_with_caption: bool,
    pub tasklist_classes: bool,
    pub ol_width: usize,
    pub experimental_minimize_commonmark: bool,
}

/// One sanitiser setting: replace it, add to it, remove from it.
#[derive(Debug, Default)]
pub struct ExSanitizeCustomSetAddRm<TSet, TAdd = TSet, TRm = TSet> {
    pub set: Option<TSet>,
    pub add: Option<TAdd>,
    pub rm: Option<TRm>,
}

/// What the sanitiser does with relative URLs.
#[derive(Debug)]
pub enum ExSanitizeCustomUrlRelative {
    Deny,
    Passthrough,
    RewriteWithBase(String),
    RewriteWithRoot((String, String)),
}

/// A sanitiser configured setting by setting.
#[derive(Debug, Default)]
pub struct ExSanitizeCustom {
    pub tags: ExSanitizeCustomSetAddRm<Vec<String>>,
    pub clean_content_tags: ExSanitizeCustomSetAddRm<Vec<String>>,
    pub tag_attributes: ExSanitizeCustomSetAddRm<HashMap<String, Vec<String>>>,
    pub tag_attribute_values: ExSanitizeCustomSetAddRm<
        HashMap<String, HashMap<String, Vec<String>>>,
    >,
    pub generic_attribute_prefixes: ExSanitizeCustomSetAddRm<Vec<String>>,
    pub generic_attributes: ExSanitizeCustomSetAddRm<Vec<String>>,
    pub url_schemes: ExSanitizeCustomSetAddRm<Vec<String>>,
    pub allowed_classes: ExSanitizeCustomSetAddRm<HashMap<String, Vec<String>>>,
    pub set_tag_attribute_values: ExSanitizeCustomSetAddRm<
        HashMap<String, HashMap<String, String>>,
        HashMap<String, HashMap<String, String>>,
        HashMap<String, String>,
    >,
    pub strip_comments: Option<bool>,
    pub link_rel: Option<String>,
    pub id_prefix: Option<String>,
    pub url_relative: Option<ExSanitizeCustomUrlRelative>,
}

/// Sanitise with the default policy, or with a custom one.
#[derive(Debug)]
pub enum ExSanitizeOption {
    Clean,
    Custom(Box<ExSanitizeCustom>),
}

impl Default for ExSanitizeOption {
    fn default() -> (r: Self)
        ensures
            r is Clean,
    {
        ExSanitizeOption::Clean
    }
}

/// The syntax-highlighting settings.
#[derive(Debug, Default)]
pub struct ExSyntaxHighlightOptions {
    pub formatter: ExFormatterOption,
}

/// Everything a host passes for one conversion.
#[derive(Debug, Default)]
pub struct ExOptions {
    pub extension: ExExtensionOptions,
    pub parse: ExParseOptions,
    pub render: ExRenderOptions,
    pub syntax_highlight: Option<ExSyntaxHighlightOptions>,
    pub sanitize: Option<ExSanitizeOption>,
}

} // verus!
