//! The syntax tree that the reducer reads: what a grammar-driven parser found
//! in a text, held as plain values.

use crate::text::{in_text, is_range_of, same_text};
use vstd::prelude::*;
use vstd::string::StringSliceAdditionalSpecFns;

verus! {

/// The kinds of syntax node that the reducer tells apart.
#[derive(Debug, Clone, Copy, PartialEq, Eq, Structural)]
pub enum NodeKind {
    Document,
    AtxHeading,
    SetextHeading,
    Paragraph,
    FencedCodeBlock,
    List,
    OrderedList,
    ListItem,
    BlockQuote,
    Inline,
    Emphasis,
    StrongEmphasis,
    CodeSpan,
    Link,
    /// Every kind that has no rule of its own.
    Other,
}

/// The names under which a node can hold a child.
#[derive(Debug, Clone, Copy, PartialEq, Eq, Structural)]
pub enum Field {
    Info,
    Content,
    Text,
    Url,
    /// Every field that no rule asks for.
    Other,
}

/// The kind that a grammar's tag stands for.
pub open spec fn kind_of_name(name: Seq<char>) -> NodeKind {
    if name == "document"@ {
        NodeKind::Document
    } else if name == "atx_heading"@ {
        NodeKind::AtxHeading
    } else if name == "setext_heading"@ {
        NodeKind::SetextHeading
    } else if name == "paragraph"@ {
        NodeKind::Paragraph
    } else if name == "fenced_code_block"@ {
        NodeKind::FencedCodeBlock
    } else if name == "list"@ {
        NodeKind::List
    } else if name == "ordered_list"@ {
        NodeKind::OrderedList
    } else if name == "list_item"@ {
        NodeKind::ListItem
    } else if name == "block_quote"@ {
        NodeKind::BlockQuote
    } else if name == "inline"@ {
        NodeKind::Inline
    } else if name == "emphasis"@ {
        NodeKind::Emphasis
    } else if name == "strong_emphasis"@ {
        NodeKind::StrongEmphasis
    } else if name == "code_span"@ {
        NodeKind::CodeSpan
    } else if name == "link"@ {
        NodeKind::Link
    } else {
        NodeKind::Other
    }
}

/// The field that a grammar's field name stands for.
pub open spec fn field_of_name(name: Seq<char>) -> Field {
    if name == "info"@ {
        Field::Info
    } else if name == "content"@ {
        Field::Content
    } else if name == "text"@ {
        Field::Text
    } else if name == "url"@ {
        Field::Url
    } else {
        Field::Other
    }
}

impl NodeKind {
    /// Reads a grammar's tag.
    pub fn from_name(name: &str) -> (kind: NodeKind)
        ensures
            kind == kind_of_name(name@),
    {
        if same_text(name, "document") {
            NodeKind::Document
        } else if same_text(name, "atx_heading") {
            NodeKind::AtxHeading
        } else if same_text(name, "setext_heading") {
            NodeKind::SetextHeading
        } else if same_text(name, "paragraph") {
            NodeKind::Paragraph
        } else if same_text(name, "fenced_code_block") {
            NodeKind::FencedCodeBlock
        } else if same_text(name, "list") {
            NodeKind::List
        } else if same_text(name, "ordered_list") {
            NodeKind::OrderedList
        } else if same_text(name, "list_item") {
            NodeKind::ListItem
        } else if same_text(name, "block_quote") {
            NodeKind::BlockQuote
        } else if same_text(name, "inline") {
            NodeKind::Inline
        } else if same_text(name, "emphasis") {
            NodeKind::Emphasis
        } else if same_text(name, "strong_emphasis") {
            NodeKind::StrongEmphasis
        } else if same_text(name, "code_span") {
            NodeKind::CodeSpan
        } else if same_text(name, "link") {
            NodeKind::Link
        } else {
            NodeKind::Other
        }
    }
}

impl Field {
    /// Reads a grammar's field name.
    pub fn from_name(name: &str) -> (field: Field)
        ensures
            field == field_of_name(name@),
    {
        if same_text(name, "info") {
            Field::Info
        } else if same_text(name, "content") {
            Field::Content
        } else if same_text(name, "text") {
            Field::Text
        } else if same_text(name, "url") {
            Field::Url
        } else {
            Field::Other
        }
    }
}

/// A node of a syntax tree.
#[derive(Debug, PartialEq, Eq)]
pub struct CstNode {
    /// What the grammar calls the node.
    pub kind: NodeKind,
    /// The field under which the parent holds the node, if any.
    pub field: Option<Field>,
    /// Where the node's text starts, in bytes from the start of the source.
    pub start_byte: usize,
    /// Where the node's text ends.
    pub end_byte: usize,
    /// The column of the node's first byte in its line.
    pub start_column: usize,
    /// Whether the grammar names the node, as opposed to a literal token.
    pub named: bool,
    /// Whether the node is one the grammar lets appear anywhere.
    pub extra: bool,
    /// The node's children, in source order.
    pub children: Vec<CstNode>,
}

impl CstNode {
    /// The byte range of the node, and of every node below it, lies in
    /// `bytes` and cuts no character, and no node starts further into its
    /// line than into the text.
    pub open spec fn fits(self, bytes: Seq<u8>) -> bool
        decreases self,
    {
        &&& in_text(bytes, self.start_byte as int, self.end_byte as int)
        &&& self.start_column <= self.start_byte
        &&& forall|i: int|
            0 <= i < self.children.len() ==> (#[trigger] self.children[i]).fits(bytes)
    }

    /// The tree is at most `depth` levels deep, its root being the first.
    pub open spec fn within(self, depth: nat) -> bool
        decreases self,
    {
        &&& depth > 0
        &&& forall|i: int|
            0 <= i < self.children.len() ==> (#[trigger] self.children[i]).within(
                (depth - 1) as nat,
            )
    }

    /// Checks that the tree's byte ranges are ranges of `content`, and that
    /// its columns are no greater than its start bytes.
    pub fn fits_text(&self, content: &str) -> (ok: bool)
        ensures
            ok == self.fits(content.spec_bytes()),
        decreases self,
    {
        if !is_range_of(content, self.start_byte, self.end_byte) {
            return false;
        }
        if self.start_column > self.start_byte {
            return false;
        }
        let mut i: usize = 0;
        while i < self.children.len()
            invariant
                i <= self.children.len(),
                in_text(content.spec_bytes(), self.start_byte as int, self.end_byte as int),
                self.start_column <= self.start_byte,
                forall|k: int| 0 <= k < i ==> (#[trigger] self.children[k]).fits(content.spec_bytes()),
            decreases self.children.len() - i,
        {
            if !self.children[i].fits_text(content) {
                return false;
            }
            i += 1;
        }
        true
    }
}

} // verus!
