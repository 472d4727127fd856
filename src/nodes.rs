//! Nodes as the host encodes them, their attributes, and decoding errors.
use vstd::prelude::*;

use std::collections::HashMap;

use crate::text::{chars_of, str_eq, string_of_range};

verus! {

/// The value of a node attribute.
#[derive(Debug, Clone, PartialEq)]
pub enum AttrValue {
    U8(u8),
    U32(u32),
    Usize(usize),
    Bool(bool),
    Text(String),
    List(Vec<String>),
}

/// The kind of a node, by its name.
#[derive(Debug, Clone, Copy, PartialEq, Eq, Structural)]
pub enum NodeName {
    Document,
    FrontMatter,
    BlockQuote,
    List,
    Item,
    DescriptionList,
    DescriptionItem,
    DescriptionTerm,
    DescriptionDetails,
    CodeBlock,
    HtmlBlock,
    Paragraph,
    Heading,
    ThematicBreak,
    FootnoteDefinition,
    Table,
    TableRow,
    TableCell,
    TaskItem,
    SoftBreak,
    LineBreak,
    Code,
    HtmlInline,
    Emph,
    Strong,
    Strikethrough,
    Superscript,
    Link,
    Image,
    FootnoteReference,
    ShortCode,
    Math,
    MultilineBlockQuote,
    Escaped,
    WikiLink,
    Underline,
    SpoileredText,
    EscapedTag,
}

/// A node: a named element with attributes and children, or text.
#[derive(Debug)]
pub enum ExNode<'a> {
    Element { name: NodeName, attrs: HashMap<&'a str, AttrValue>, children: Vec<ExNode<'a>> },
    Text(String),
}

/// What `str::to_lowercase` makes of a string.
pub uninterp spec fn lowercase_of(s: Seq<char>) -> Seq<char>;

/// Relies on str::to_lowercase: the lower-case form of a string.
#[verifier::external_body]
fn to_lowercase(s: &str) -> (r: String)
    ensures
        r@ == lowercase_of(s@),
{
    s.to_lowercase()
}

/// The node kind a lower-case name stands for.
pub open spec fn node_name_of(s: Seq<char>) -> Option<NodeName> {
    if s == "document"@ {
        Some(NodeName::Document)
    } else if s == "front_matter"@ {
        Some(NodeName::FrontMatter)
    } else if s == "block_quote"@ {
        Some(NodeName::BlockQuote)
    } else if s == "list"@ {
        Some(NodeName::List)
    } else if s == "item"@ {
        Some(NodeName::Item)
    } else if s == "description_list"@ {
        Some(NodeName::DescriptionList)
    } else if s == "description_item"@ {
        Some(NodeName::DescriptionItem)
    } else if s == "description_term"@ {
        Some(NodeName::DescriptionTerm)
    } else if s == "description_details"@ {
        Some(NodeName::DescriptionDetails)
    } else if s == "code_block"@ {
        Some(NodeName::CodeBlock)
    } else if s == "html_block"@ {
        Some(NodeName::HtmlBlock)
    } else if s == "paragraph"@ {
        Some(NodeName::Paragraph)
    } else if s == "heading"@ {
        Some(NodeName::Heading)
    } else if s == "thematic_break"@ {
        Some(NodeName::ThematicBreak)
    } else if s == "footnote_definition"@ {
        Some(NodeName::FootnoteDefinition)
    } else if s == "table"@ {
        Some(NodeName::Table)
    } else if s == "table_row"@ {
        Some(NodeName::TableRow)
    } else if s == "table_cell"@ {
        Some(NodeName::TableCell)
    } else if s == "task_item"@ {
        Some(NodeName::TaskItem)
    } else if s == "soft_break"@ {
        Some(NodeName::SoftBreak)
    } else if s == "line_break"@ {
        Some(NodeName::LineBreak)
    } else if s == "code"@ {
        Some(NodeName::Code)
    } else if s == "html_inline"@ {
        Some(NodeName::HtmlInline)
    } else if s == "emph"@ {
        Some(NodeName::Emph)
    } else if s == "strong"@ {
        Some(NodeName::Strong)
    } else if s == "strikethrough"@ {
        Some(NodeName::Strikethrough)
    } else if s == "superscript"@ {
        Some(NodeName::Superscript)
    } else if s == "link"@ {
        Some(NodeName::Link)
    } else if s == "image"@ {
        Some(NodeName::Image)
    } else if s == "footnote_reference"@ {
        Some(NodeName::FootnoteReference)
    } else if s == "short_code"@ {
        Some(NodeName::ShortCode)
    } else if s == "math"@ {
        Some(NodeName::Math)
    } else if s == "multiline_block_quote"@ {
        Some(NodeName::MultilineBlockQuote)
    } else if s == "escaped"@ {
        Some(NodeName::Escaped)
    } else if s == "wiki_link"@ {
        Some(NodeName::WikiLink)
    } else if s == "underline"@ {
        Some(NodeName::Underline)
    } else if s == "spoilered_text"@ {
        Some(NodeName::SpoileredText)
    } else if s == "escaped_tag"@ {
        Some(NodeName::EscapedTag)
    } else {
        None
    }
}

impl NodeName {
    /// The node kind a name stands for, whatever the case of its letters.
    pub fn parse_name(s: &str) -> (r: Option<NodeName>)
        ensures
            r == node_name_of(lowercase_of(s@)),
    {
        let lower = to_lowercase(s);
        NodeName::from_lower_name(lower.as_str())
    }

    /// The node kind a lower-case name stands for.
    pub fn from_lower_name(l: &str) -> (r: Option<NodeName>)
        ensures
            r == node_name_of(l@),
    {
        if str_eq(l, "document") {
            Some(NodeName::Document)
        } else if str_eq(l, "front_matter") {
            Some(NodeName::FrontMatter)
        } else if str_eq(l, "block_quote") {
            Some(NodeName::BlockQuote)
        } else if str_eq(l, "list") {
            Some(NodeName::List)
        } else if str_eq(l, "item") {
            Some(NodeName::Item)
        } else if str_eq(l, "description_list") {
            Some(NodeName::DescriptionList)
        } else if str_eq(l, "description_item") {
            Some(NodeName::DescriptionItem)
        } else if str_eq(l, "description_term") {
            Some(NodeName::DescriptionTerm)
        } else if str_eq(l, "description_details") {
            Some(NodeName::DescriptionDetails)
        } else if str_eq(l, "code_block") {
            Some(NodeName::CodeBlock)
        } else if str_eq(l, "html_block") {
            Some(NodeName::HtmlBlock)
        } else if str_eq(l, "paragraph") {
            Some(NodeName::Paragraph)
        } else if str_eq(l, "heading") {
            Some(NodeName::Heading)
        } else if str_eq(l, "thematic_break") {
            Some(NodeName::ThematicBreak)
        } else if str_eq(l, "footnote_definition") {
            Some(NodeName::FootnoteDefinition)
        } else if str_eq(l, "table") {
            Some(NodeName::Table)
        } else if str_eq(l, "table_row") {
            Some(NodeName::TableRow)
        } else if str_eq(l, "table_cell") {
            Some(NodeName::TableCell)
        } else if str_eq(l, "task_item") {
            Some(NodeName::TaskItem)
        } else if str_eq(l, "soft_break") {
            Some(NodeName::SoftBreak)
        } else if str_eq(l, "line_break") {
            Some(NodeName::LineBreak)
        } else if str_eq(l, "code") {
            Some(NodeName::Code)
        } else if str_eq(l, "html_inline") {
            Some(NodeName::HtmlInline)
        } else if str_eq(l, "emph") {
            Some(NodeName::Emph)
        } else if str_eq(l, "strong") {
            Some(NodeName::Strong)
        } else if str_eq(l, "strikethrough") {
            Some(NodeName::Strikethrough)
        } else if str_eq(l, "superscript") {
            Some(NodeName::Superscript)
        } else if str_eq(l, "link") {
            Some(NodeName::Link)
        } else if str_eq(l, "image") {
            Some(NodeName::Image)
        } else if str_eq(l, "footnote_reference") {
            Some(NodeName::FootnoteReference)
        } else if str_eq(l, "short_code") {
            Some(NodeName::ShortCode)
        } else if str_eq(l, "math") {
            Some(NodeName::Math)
        } else if str_eq(l, "multiline_block_quote") {
            Some(NodeName::MultilineBlockQuote)
        } else if str_eq(l, "escaped") {
            Some(NodeName::Escaped)
        } else if str_eq(l, "wiki_link") {
            Some(NodeName::WikiLink)
        } else if str_eq(l, "underline") {
            Some(NodeName::Underline)
        } else if str_eq(l, "spoilered_text") {
            Some(NodeName::SpoileredText)
        } else if str_eq(l, "escaped_tag") {
            Some(NodeName::EscapedTag)
        } else {
            None
        }
    }
}

impl std::str::FromStr for NodeName {
    type Err = ();

    fn from_str(s: &str) -> Result<Self, Self::Err> {
        match NodeName::parse_name(s) {
            Some(n) => Ok(n),
            None => Err(()),
        }
    }
}

/// Why a node sent by the host could not be decoded.
#[derive(Debug)]
pub enum DecodeError {
    InvalidStructure { found: String },
    Empty { found: String },
    MissingNodeField { found: String },
    MissingAttrField { found: String, node: String },
    NodeNameNotString { found: String, node: String, kind: String },
    UnknownNodeName { found: String, node: String },
    AttrKeyNotString { found: String, node: String, attr: String, kind: String },
    UnknownAttrValue { found: String, node: String, attr: String, kind: String },
}

/// The byte a one-character attribute stands for: its first character cut to a
/// byte, or 0 for an empty string.
pub open spec fn char_byte(s: Seq<char>) -> u8 {
    if s.len() == 0 {
        0
    } else {
        ((s[0] as u32) % 256) as u8
    }
}

/// The byte a one-character attribute stands for.
pub fn string_to_char(s: String) -> (r: u8)
    ensures
        r == char_byte(s@),
{
    let v = chars_of(s.as_str());
    if v.len() == 0 {
        return 0;
    }
    ((v[0] as u32) % 256) as u8
}

/// The attribute a byte stands for: empty for 0, the character for an ASCII
/// byte; any other byte is no UTF-8 text.
pub fn char_to_string(c: u8) -> (r: Result<String, &'static str>)
    ensures
        r is Ok <==> c < 128,
        r matches Ok(s) ==> s@ == if c == 0 {
            Seq::<char>::empty()
        } else {
            seq![c as char]
        },
        r matches Ok(s) ==> char_byte(s@) == c,
        r matches Err(e) ==> e@ == "failed to convert to string"@,
{
    if c == 0 {
        return Ok(String::new());
    }
    if c < 128 {
        let v: Vec<char> = vec![c as char];
        Ok(string_of_range(&v, 0, 1))
    } else {
        Err("failed to convert to string")
    }
}

/// The task-item symbol the last `symbol` attribute gives: its first character.
pub open spec fn last_symbol(attrs: Seq<(Seq<char>, AttrValue)>) -> Option<char>
    decreases attrs.len(),
{
    if attrs.len() == 0 {
        None
    } else if attrs.last().0 == "symbol"@ && attrs.last().1 is Text {
        let t = attrs.last().1->Text_0@;
        if t.len() > 0 {
            Some(t[0])
        } else {
            None
        }
    } else {
        last_symbol(attrs.drop_last())
    }
}

/// Whether some attribute says the task is not checked.
pub open spec fn unchecked(attrs: Seq<(Seq<char>, AttrValue)>) -> bool {
    exists|i: int|
        0 <= i < attrs.len() && (#[trigger] attrs[i]).0 == "checked"@ && attrs[i].1
            == AttrValue::Bool(false)
}

pub open spec fn attr_pairs<'a>(attrs: Seq<(&'a str, AttrValue)>) -> Seq<(Seq<char>, AttrValue)> {
    attrs.map_values(|p: (&'a str, AttrValue)| (p.0@, p.1))
}

/// The symbol of a task item: none when `checked` is false, else the first
/// character of the last `symbol`. Other attributes are ignored.
pub fn attrs_to_task_item(node_name: &str, attrs: Vec<(&str, AttrValue)>) -> (r: Option<char>)
    ensures
        r == if unchecked(attr_pairs(attrs@)) {
            None
        } else {
            last_symbol(attr_pairs(attrs@))
        },
{
    let ghost pairs = attr_pairs(attrs@);
    let mut symbol: Option<char> = None;
    let mut i: usize = 0;
    while i < attrs.len()
        invariant
            i <= attrs.len(),
            pairs == attr_pairs(attrs@),
            !unchecked(pairs.subrange(0, i as int)),
            symbol == last_symbol(pairs.subrange(0, i as int)),
        decreases attrs.len() - i,
    {
        let (key, value) = &attrs[i];
        proof {
            let p = pairs.subrange(0, i + 1);
            assert(p.drop_last() =~= pairs.subrange(0, i as int));
            assert(p.last() == pairs[i as int]);
        }
        if str_eq(key, "checked") {
            if let AttrValue::Bool(false) = value {
                proof {
                    assert(pairs[i as int].0 == "checked"@);
                    assert(unchecked(pairs));
                }
                return None;
            }
        }
        if str_eq(key, "symbol") {
            if let AttrValue::Text(t) = value {
                let v = chars_of(t.as_str());
                symbol = if v.len() > 0 {
                    Some(v[0])
                } else {
                    None
                };
            }
        }
        proof {
            let p = pairs.subrange(0, i + 1);
            assert forall|j: int| 0 <= j < p.len() implies !((#[trigger] p[j]).0 == "checked"@ && p[j].1 == AttrValue::Bool(false)) by {
                if j < i {
                    assert(p[j] == pairs.subrange(0, i as int)[j]);
                }
            }
        }
        i += 1;
    }
    assert(pairs.subrange(0, i as int) =~= pairs);
    symbol
}

} // verus!
