//! A code-fence rendering adapter for a markdown-to-HTML renderer.
//!
//! The host calls three phases per fenced code block (`<pre>`, `<code>`, then the
//! highlighted body). Decorators in the fence's info string (`key=value`, quoted
//! values, bare flags) choose the theme, the `<pre>` class and the highlighted
//! lines; lumis does the lexical highlighting and draws the spans. Beside the
//! adapter stand the document, node and option types the host exchanges.

pub mod adapter;
pub mod attributes;
pub mod config;
pub mod document;
pub mod highlight_lines;
pub mod inkjet;
pub mod language;
pub mod line_spec;
mod lumis_out;
pub mod nodes;
pub mod options;
pub mod render;
pub mod safe_html;
pub mod text;
pub mod theme;
