//! The document model: one node per Markdown construct, each owning its text.

use vstd::prelude::*;

verus! {

/// A node of a Markdown document, block or inline.
#[derive(Debug, PartialEq, Eq)]
#[allow(inconsistent_fields)]
pub enum MDNode {
    /// The whole document: its blocks in order.
    Document(Vec<MDNode>),
    /// A heading of level 1 to 6 and its inline content.
    Heading { level: u8, content: Vec<MDNode> },
    /// A paragraph: its inline content.
    Paragraph(Vec<MDNode>),
    /// A fenced code block: the language tag, if any, and the code as written.
    CodeBlock { language: Option<String>, content: String },
    /// A code span, without its delimiters.
    InlineCode(String),
    /// Strong emphasis around inline content.
    Bold(Vec<MDNode>),
    /// Emphasis around inline content.
    Em(Vec<MDNode>),
    /// A link: its text as inline content, and its destination as written.
    Link { text: Vec<MDNode>, url: String },
    /// Plain text, as written.
    Text(String),
    /// A list: each item is a sequence of blocks.
    List { ordered: bool, items: Vec<Vec<MDNode>> },
    /// A block quote: its blocks in order.
    BlockQuote(Vec<MDNode>),
}

/// The mathematical value of an [`MDNode`]: sequences for vectors, characters
/// for strings.
#[allow(inconsistent_fields)]
pub enum Md {
    Document(Seq<Md>),
    Heading { level: nat, content: Seq<Md> },
    Paragraph(Seq<Md>),
    CodeBlock { language: Option<Seq<char>>, content: Seq<char> },
    InlineCode(Seq<char>),
    Bold(Seq<Md>),
    Em(Seq<Md>),
    Link { text: Seq<Md>, url: Seq<char> },
    Text(Seq<char>),
    List { ordered: bool, items: Seq<Seq<Md>> },
    BlockQuote(Seq<Md>),
}

/// The values of a sequence of nodes, in order.
pub open spec fn nodes_view(nodes: Seq<MDNode>) -> Seq<Md>
    decreases nodes, 0nat,
{
    if nodes.len() == 0 {
        Seq::empty()
    } else {
        nodes_view(nodes.drop_last()).push(node_view(nodes.last()))
    }
}

/// The values of the items of a list, in order.
pub open spec fn items_view(items: Seq<Vec<MDNode>>) -> Seq<Seq<Md>>
    decreases items, 0nat,
{
    if items.len() == 0 {
        Seq::empty()
    } else {
        items_view(items.drop_last()).push(nodes_view(items.last()@))
    }
}

/// The value of one node.
pub open spec fn node_view(node: MDNode) -> Md
    decreases node, 1nat,
{
    match node {
        MDNode::Document(blocks) => Md::Document(nodes_view(blocks@)),
        MDNode::Heading { level, content } => Md::Heading {
            level: level as nat,
            content: nodes_view(content@),
        },
        MDNode::Paragraph(content) => Md::Paragraph(nodes_view(content@)),
        MDNode::CodeBlock { language, content } => Md::CodeBlock {
            language: match language {
                Some(tag) => Some(tag@),
                None => None,
            },
            content: content@,
        },
        MDNode::InlineCode(code) => Md::InlineCode(code@),
        MDNode::Bold(content) => Md::Bold(nodes_view(content@)),
        MDNode::Em(content) => Md::Em(nodes_view(content@)),
        MDNode::Link { text, url } => Md::Link { text: nodes_view(text@), url: url@ },
        MDNode::Text(text) => Md::Text(text@),
        MDNode::List { ordered, items } => Md::List { ordered, items: items_view(items@) },
        MDNode::BlockQuote(blocks) => Md::BlockQuote(nodes_view(blocks@)),
    }
}

impl View for MDNode {
    type V = Md;

    open spec fn view(&self) -> Md {
        node_view(*self)
    }
}

/// Appending one node appends its value.
pub proof fn lemma_nodes_view_push(nodes: Seq<MDNode>, node: MDNode)
    ensures
        nodes_view(nodes.push(node)) == nodes_view(nodes).push(node@),
{
    assert(nodes.push(node).drop_last() =~= nodes);
}

/// Appending one item appends the values of its blocks.
pub proof fn lemma_items_view_push(items: Seq<Vec<MDNode>>, item: Vec<MDNode>)
    ensures
        items_view(items.push(item)) == items_view(items).push(nodes_view(item@)),
{
    assert(items.push(item).drop_last() =~= items);
}

/// The value of a concatenation is the concatenation of the values.
pub proof fn lemma_nodes_view_add(front: Seq<MDNode>, back: Seq<MDNode>)
    ensures
        nodes_view(front + back) == nodes_view(front) + nodes_view(back),
    decreases back.len(),
{
    if back.len() == 0 {
        assert(front + back =~= front);
        assert(nodes_view(front) + nodes_view(back) =~= nodes_view(front));
    } else {
        lemma_nodes_view_add(front, back.drop_last());
        assert((front + back).drop_last() =~= front + back.drop_last());
        assert((front + back).last() == back.last());
        assert(nodes_view(front) + nodes_view(back) =~= (nodes_view(front) + nodes_view(
            back.drop_last(),
        )).push(node_view(back.last())));
    }
}

/// A node that may stand in a block's text flow: text, a code span, emphasis
/// or a link, with nothing but such nodes inside.
pub open spec fn is_inline(node: Md) -> bool
    decreases node,
{
    match node {
        Md::Text(_) => true,
        Md::InlineCode(_) => true,
        Md::Em(content) => forall|i: int|
            0 <= i < content.len() ==> is_inline(#[trigger] content[i]),
        Md::Bold(content) => forall|i: int|
            0 <= i < content.len() ==> is_inline(#[trigger] content[i]),
        Md::Link { text, url } => forall|i: int|
            0 <= i < text.len() ==> is_inline(#[trigger] text[i]),
        _ => false,
    }
}

/// Every node of the sequence may stand in a block's text flow.
pub open spec fn all_inline(nodes: Seq<Md>) -> bool {
    forall|i: int| 0 <= i < nodes.len() ==> is_inline(#[trigger] nodes[i])
}

/// A node that may stand where a block is expected, built as the model asks:
/// a heading has a level from 1 to 6, headings and paragraphs hold inline
/// nodes only, and containers hold blocks only. Text that no rule claimed is
/// a block too.
pub open spec fn is_block(node: Md) -> bool
    decreases node,
{
    match node {
        Md::Document(blocks) => forall|i: int|
            0 <= i < blocks.len() ==> is_block(#[trigger] blocks[i]),
        Md::BlockQuote(blocks) => forall|i: int|
            0 <= i < blocks.len() ==> is_block(#[trigger] blocks[i]),
        Md::Heading { level, content } => 1 <= level <= 6 && all_inline(content),
        Md::Paragraph(content) => all_inline(content),
        Md::CodeBlock { language, content } => true,
        Md::List { ordered, items } => forall|i: int|
            #![trigger items[i]]
            0 <= i < items.len() ==> forall|j: int|
                0 <= j < items[i].len() ==> is_block(#[trigger] items[i][j]),
        Md::Text(_) => true,
        _ => false,
    }
}

/// Every node of the sequence may stand where a block is expected.
pub open spec fn all_blocks(nodes: Seq<Md>) -> bool {
    forall|i: int| 0 <= i < nodes.len() ==> is_block(#[trigger] nodes[i])
}

} // verus!
