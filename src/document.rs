//! The document tree handed to and from the host: one type per node kind.
use vstd::prelude::*;

verus! {

/// A node of the document tree.
#[derive(Debug)]
pub enum NewNode {
    Document(ExDocument),
    FrontMatter(ExFrontMatter),
    BlockQuote(ExBlockQuote),
    List(ExList),
    ListItem(ExListItem),
    DescriptionList(ExDescriptionList),
    DescriptionItem(ExDescriptionItem),
    DescriptionTerm(ExDescriptionTerm),
    DescriptionDetails(ExDescriptionDetails),
    CodeBlock(ExCodeBlock),
    HtmlBlock(ExHtmlBlock),
    Paragraph(ExParagraph),
    Heading(ExHeading),
    ThematicBreak(ExThematicBreak),
    FootnoteDefinition(ExFootnoteDefinition),
    FootnoteReference(ExFootnoteReference),
    Table(ExTable),
    TableRow(ExTableRow),
    TableCell(ExTableCell),
    Text(ExText),
    TaskItem(ExTaskItem),
    SoftBreak(ExSoftBreak),
    LineBreak(ExLineBreak),
    Code(ExCode),
    HtmlInline(ExHtmlInline),
    Raw(ExRaw),
    Emph(ExEmph),
    Strong(ExStrong),
    Strikethrough(ExStrikethrough),
    Superscript(ExSuperscript),
    Link(ExLink),
    Image(ExImage),
    ShortCode(ExShortCode),
    Math(ExMath),
    MultilineBlockQuote(ExMultilineBlockQuote),
    Escaped(ExEscaped),
    WikiLink(ExWikiLink),
    Underline(ExUnderline),
    Subscript(ExSubscript),
    SpoileredText(ExSpoileredText),
    Subtext(ExSubtext),
    EscapedTag(ExEscapedTag),
    Alert(ExAlert),
}

#[derive(Debug)]
pub struct ExDocument {
    pub nodes: Vec<NewNode>,
}

#[derive(Debug)]
pub struct ExFrontMatter {
    pub literal: String,
}

#[derive(Debug)]
pub struct ExBlockQuote {
    pub nodes: Vec<NewNode>,
}

#[derive(Clone, Copy, Debug, PartialEq, Eq, Structural)]
pub enum ExListType {
    Bullet,
    Ordered,
}

#[derive(Clone, Copy, Debug, PartialEq, Eq, Structural)]
pub enum ExListDelimType {
    Period,
    Paren,
}

#[derive(Debug)]
pub struct ExList {
    pub nodes: Vec<NewNode>,
    pub list_type: ExListType,
    pub marker_offset: usize,
    pub padding: usize,
    pub start: usize,
    pub delimiter: ExListDelimType,
    pub bullet_char: String,
    pub tight: bool,
    pub is_task_list: bool,
}

#[derive(Debug)]
pub struct ExListItem {
    pub nodes: Vec<NewNode>,
    pub list_type: ExListType,
    pub marker_offset: usize,
    pub padding: usize,
    pub start: usize,
    pub delimiter: ExListDelimType,
    pub bullet_char: String,
    pub tight: bool,
    pub is_task_list: bool,
}

#[derive(Debug)]
pub struct ExDescriptionList {
    pub nodes: Vec<NewNode>,
}

#[derive(Debug)]
pub struct ExDescriptionItem {
    pub nodes: Vec<NewNode>,
    pub marker_offset: usize,
    pub padding: usize,
    pub tight: bool,
}

#[derive(Debug)]
pub struct ExDescriptionTerm {
    pub nodes: Vec<NewNode>,
}

#[derive(Debug)]
pub struct ExDescriptionDetails {
    pub nodes: Vec<NewNode>,
}

#[derive(Debug)]
pub struct ExCodeBlock {
    pub nodes: Vec<NewNode>,
    pub fenced: bool,
    pub fence_char: String,
    pub fence_length: usize,
    pub fence_offset: usize,
    pub info: String,
    pub literal: String,
    pub closed: bool,
}

#[derive(Debug)]
pub struct ExHtmlBlock {
    pub nodes: Vec<NewNode>,
    pub block_type: u8,
    pub literal: String,
}

#[derive(Debug)]
pub struct ExParagraph {
    pub nodes: Vec<NewNode>,
}

#[derive(Debug)]
pub struct ExHeading {
    pub nodes: Vec<NewNode>,
    pub level: u8,
    pub setext: bool,
    pub closed: bool,
}

#[derive(Debug)]
pub struct ExThematicBreak {}

#[derive(Debug)]
pub struct ExFootnoteDefinition {
    pub nodes: Vec<NewNode>,
    pub name: String,
    pub total_references: u32,
}

#[derive(Debug)]
pub struct ExFootnoteReference {
    pub name: String,
    pub ref_num: u32,
    pub ix: u32,
}

/// Alignment of a table column; `NoAlignment` where the column names none.
#[derive(Clone, Copy, Debug, PartialEq, Eq, Structural)]
pub enum ExTableAlignment {
    NoAlignment,
    Left,
    Center,
    Right,
}

#[derive(Debug)]
pub struct ExTable {
    pub nodes: Vec<NewNode>,
    pub alignments: Vec<ExTableAlignment>,
    pub num_columns: usize,
    pub num_rows: usize,
    pub num_nonempty_cells: usize,
}

#[derive(Debug)]
pub struct ExTableRow {
    pub nodes: Vec<NewNode>,
    pub header: bool,
}

#[derive(Debug)]
pub struct ExTableCell {
    pub nodes: Vec<NewNode>,
}

#[derive(Debug)]
pub struct ExText {
    pub literal: String,
}

#[derive(Debug)]
pub struct ExTaskItem {
    pub nodes: Vec<NewNode>,
    pub checked: bool,
    pub marker: String,
}

#[derive(Debug)]
pub struct ExSoftBreak {}

#[derive(Debug)]
pub struct ExLineBreak {}

#[derive(Debug)]
pub struct ExCode {
    pub num_backticks: usize,
    pub literal: String,
}

#[derive(Debug)]
pub struct ExHtmlInline {
    pub literal: String,
}

#[derive(Debug)]
pub struct ExRaw {
    pub literal: String,
}

#[derive(Debug)]
pub struct ExEmph {
    pub nodes: Vec<NewNode>,
}

#[derive(Debug)]
pub struct ExStrong {
    pub nodes: Vec<NewNode>,
}

#[derive(Debug)]
pub struct ExStrikethrough {
    pub nodes: Vec<NewNode>,
}

#[derive(Debug)]
pub struct ExSuperscript {
    pub nodes: Vec<NewNode>,
}

#[derive(Debug)]
pub struct ExLink {
    pub nodes: Vec<NewNode>,
    pub url: String,
    pub title: String,
}

#[derive(Debug)]
pub struct ExImage {
    pub nodes: Vec<NewNode>,
    pub url: String,
    pub title: String,
}

#[derive(Debug)]
pub struct ExShortCode {
    pub code: String,
    pub emoji: String,
}

#[derive(Debug)]
pub struct ExMath {
    pub dollar_math: bool,
    pub display_math: bool,
    pub literal: String,
}

#[derive(Debug)]
pub struct ExMultilineBlockQuote {
    pub nodes: Vec<NewNode>,
    pub fence_length: usize,
    pub fence_offset: usize,
}

#[derive(Debug)]
pub struct ExEscaped {}

#[derive(Debug)]
pub struct ExWikiLink {
    pub nodes: Vec<NewNode>,
    pub url: String,
}

#[derive(Debug)]
pub struct ExUnderline {
    pub nodes: Vec<NewNode>,
}

#[derive(Debug)]
pub struct ExSubscript {
    pub nodes: Vec<NewNode>,
}

#[derive(Debug)]
pub struct ExSpoileredText {
    pub nodes: Vec<NewNode>,
}

#[derive(Debug)]
pub struct ExSubtext {
    pub nodes: Vec<NewNode>,
}

#[derive(Debug)]
pub struct ExEscapedTag {
    pub nodes: Vec<NewNode>,
    pub literal: String,
}

#[derive(Clone, Copy, Debug, PartialEq, Eq, Structural)]
pub enum ExAlertType {
    Note,
    Tip,
    Important,
    Warning,
    Caution,
}

impl Default for ExAlertType {
    fn default() -> (r: Self)
        ensures
            r == ExAlertType::Note,
    {
        ExAlertType::Note
    }
}

#[derive(Debug)]
pub struct ExAlert {
    pub nodes: Vec<NewNode>,
    pub alert_type: ExAlertType,
    pub title: Option<String>,
    pub multiline: bool,
    pub fence_length: usize,
    pub fence_offset: usize,
}

} // verus!
