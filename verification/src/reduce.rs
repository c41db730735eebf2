//! What a syntax tree means as a document: the block pass and the inline pass,
//! stated as functions from a tree and the bytes of its source.

use crate::cst::{CstNode, Field, NodeKind};
use crate::document::{
    all_inline, is_block, items_view, lemma_items_view_push, lemma_nodes_view_add,
    lemma_nodes_view_push, nodes_view, MDNode, Md,
};
use crate::laws::{lemma_block_shape, lemma_inline_shape};
use crate::text::{
    in_text, lemma_boundary_after_ascii, lemma_boundary_before_ascii, slice, text_at, trim,
    trimmed,
};
use vstd::prelude::*;
use vstd::string::StringSliceAdditionalSpecFns;
use vstd::utf8::*;

verus! {

/// The byte of the delimiter of a code span.
pub const TICK: u8 = 0x60;

/// A heading's level from the length of its marker run: at least 1, at most 6.
pub open spec fn clamp_level(run: int) -> nat {
    if run < 1 {
        1
    } else if run > 6 {
        6
    } else {
        run as nat
    }
}

/// The length of the marker run of a heading: the number of bytes that its
/// first child, the marker, covers.
pub open spec fn marker_run(first: CstNode) -> int {
    first.end_byte - first.start_byte
}

/// The level of an ATX heading with the given children: that of the marker
/// run at its first child, and 1 where it has no child.
pub open spec fn atx_level(children: Seq<CstNode>) -> nat {
    if children.len() == 0 {
        1
    } else {
        clamp_level(marker_run(children[0]))
    }
}

/// The first position at or after `from` whose node is held in `field`.
pub open spec fn field_index(children: Seq<CstNode>, field: Field, from: int) -> Option<int>
    decreases children.len() - from,
{
    if from < 0 || from >= children.len() {
        None
    } else if children[from].field == Some(field) {
        Some(from)
    } else {
        field_index(children, field, from + 1)
    }
}

/// The text of the first child held in `field`, if there is one.
pub open spec fn field_text(children: Seq<CstNode>, field: Field, bytes: Seq<u8>) -> Option<
    Seq<char>,
> {
    match field_index(children, field, 0) {
        Some(i) => Some(text_at(bytes, children[i].start_byte as int, children[i].end_byte as int)),
        None => None,
    }
}

/// Where the code of a code span starts: behind the delimiters that the
/// range `start..end` begins with.
pub open spec fn code_start(bytes: Seq<u8>, start: int, end: int) -> int
    decreases end - start,
{
    if start < end && bytes[start] == TICK {
        code_start(bytes, start + 1, end)
    } else {
        start
    }
}

/// Where the code of a code span ends: in front of the delimiters that the
/// range `start..end` ends with.
pub open spec fn code_end(bytes: Seq<u8>, start: int, end: int) -> int
    decreases end - start,
{
    if start < end && bytes[end - 1] == TICK {
        code_end(bytes, start, end - 1)
    } else {
        end
    }
}

/// The text of a code span: its source without the delimiters at its two
/// ends.
pub open spec fn code_text(bytes: Seq<u8>, start: int, end: int) -> Seq<char> {
    let from = code_start(bytes, start, end);
    text_at(bytes, from, code_end(bytes, from, end))
}

/// A list is ordered when its first child is an ordered list.
pub open spec fn is_ordered(children: Seq<CstNode>) -> bool {
    children.len() > 0 && children[0].kind == NodeKind::OrderedList
}

/// The block pass on one node.
pub open spec fn block_of(node: CstNode, bytes: Seq<u8>) -> Md
    decreases node, 0nat, 0nat,
{
    match node.kind {
        NodeKind::Document => Md::Document(blocks_of(node.children@, bytes)),
        NodeKind::AtxHeading => Md::Heading {
            level: atx_level(node.children@),
            content: content_of(node.children@, bytes),
        },
        NodeKind::SetextHeading => Md::Heading {
            level: 1,
            content: content_of(node.children@, bytes),
        },
        NodeKind::Paragraph => Md::Paragraph(content_of(node.children@, bytes)),
        NodeKind::FencedCodeBlock => Md::CodeBlock {
            language: match field_text(node.children@, Field::Info, bytes) {
                Some(info) => Some(trimmed(info)),
                None => None,
            },
            content: match field_text(node.children@, Field::Content, bytes) {
                Some(code) => code,
                None => Seq::empty(),
            },
        },
        NodeKind::List => Md::List {
            ordered: is_ordered(node.children@),
            items: items_of(node.children@, bytes),
        },
        NodeKind::BlockQuote => Md::BlockQuote(blocks_of(node.children@, bytes)),
        _ => Md::Text(text_at(bytes, node.start_byte as int, node.end_byte as int)),
    }
}

/// The block pass on the named nodes among `nodes`, in order.
pub open spec fn blocks_of(nodes: Seq<CstNode>, bytes: Seq<u8>) -> Seq<Md>
    decreases nodes, 1nat, 0nat,
{
    if nodes.len() == 0 {
        Seq::empty()
    } else if nodes.last().named {
        blocks_of(nodes.drop_last(), bytes).push(block_of(nodes.last(), bytes))
    } else {
        blocks_of(nodes.drop_last(), bytes)
    }
}

/// One entry for each named list item among `nodes`: the block pass on its
/// children.
pub open spec fn items_of(nodes: Seq<CstNode>, bytes: Seq<u8>) -> Seq<Seq<Md>>
    decreases nodes, 1nat, 0nat,
{
    if nodes.len() == 0 {
        Seq::empty()
    } else if nodes.last().named && nodes.last().kind == NodeKind::ListItem {
        items_of(nodes.drop_last(), bytes).push(blocks_of(nodes.last().children@, bytes))
    } else {
        items_of(nodes.drop_last(), bytes)
    }
}

/// The inline content of a block: the inline pass on each named `inline`
/// node among `nodes`, one after the other.
pub open spec fn content_of(nodes: Seq<CstNode>, bytes: Seq<u8>) -> Seq<Md>
    decreases nodes, 1nat, 0nat,
{
    if nodes.len() == 0 {
        Seq::empty()
    } else if nodes.last().named && nodes.last().kind == NodeKind::Inline {
        content_of(nodes.drop_last(), bytes) + inline_of(nodes.last(), bytes)
    } else {
        content_of(nodes.drop_last(), bytes)
    }
}

/// The inline pass on one node: what its children stand for.
pub open spec fn inline_of(node: CstNode, bytes: Seq<u8>) -> Seq<Md>
    decreases node, 2nat, 0nat,
{
    spans_of(node.children@, bytes)
}

/// What the named nodes among `nodes` stand for inline, in order.
pub open spec fn spans_of(nodes: Seq<CstNode>, bytes: Seq<u8>) -> Seq<Md>
    decreases nodes, 1nat, 0nat,
{
    if nodes.len() == 0 {
        Seq::empty()
    } else if nodes.last().named {
        spans_of(nodes.drop_last(), bytes) + span_of(nodes.last(), bytes)
    } else {
        spans_of(nodes.drop_last(), bytes)
    }
}

/// What one named node stands for inline: one node of the document, or
/// nothing where the grammar marks it as extra.
pub open spec fn span_of(node: CstNode, bytes: Seq<u8>) -> Seq<Md>
    decreases node, 3nat, 0nat,
{
    match node.kind {
        NodeKind::Emphasis => seq![Md::Em(inline_of(node, bytes))],
        NodeKind::StrongEmphasis => seq![Md::Bold(inline_of(node, bytes))],
        NodeKind::CodeSpan => seq![
            Md::InlineCode(code_text(bytes, node.start_byte as int, node.end_byte as int)),
        ],
        NodeKind::Link => seq![
            Md::Link {
                text: link_text(node.children@, bytes, 0),
                url: match field_text(node.children@, Field::Url, bytes) {
                    Some(url) => url,
                    None => Seq::empty(),
                },
            },
        ],
        _ => if node.extra {
            Seq::empty()
        } else {
            seq![Md::Text(text_at(bytes, node.start_byte as int, node.end_byte as int))]
        },
    }
}

/// The text of a link: the inline pass on the first child at or after `from`
/// that is held in the field `text`; empty where there is none.
pub open spec fn link_text(children: Seq<CstNode>, bytes: Seq<u8>, from: int) -> Seq<Md>
    decreases children, 2nat, children.len() - from,
{
    if from < 0 || from >= children.len() {
        Seq::empty()
    } else if children[from].field == Some(Field::Text) {
        inline_of(children[from], bytes)
    } else {
        link_text(children, bytes, from + 1)
    }
}

/// Every node of `nodes` fits the text.
pub open spec fn all_fit(nodes: Seq<CstNode>, bytes: Seq<u8>) -> bool {
    forall|i: int| 0 <= i < nodes.len() ==> (#[trigger] nodes[i]).fits(bytes)
}

/// The text of a link is the inline pass on the child that `field_index`
/// finds.
pub proof fn lemma_link_text(children: Seq<CstNode>, bytes: Seq<u8>, from: int)
    requires
        0 <= from,
    ensures
        link_text(children, bytes, from) == match field_index(children, Field::Text, from) {
            Some(i) => inline_of(children[i], bytes),
            None => Seq::empty(),
        },
    decreases children.len() - from,
{
    if from < children.len() && children[from].field != Some(Field::Text) {
        lemma_link_text(children, bytes, from + 1);
    }
}

/// Behind leading delimiters the text goes on at a character boundary.
pub proof fn lemma_code_start(bytes: Seq<u8>, start: int, end: int)
    requires
        valid_utf8(bytes),
        in_text(bytes, start, end),
    ensures
        in_text(bytes, code_start(bytes, start, end), end),
        start <= code_start(bytes, start, end),
    decreases end - start,
{
    if start < end && bytes[start] == TICK {
        lemma_boundary_after_ascii(bytes, start);
        lemma_code_start(bytes, start + 1, end);
    }
}

/// In front of trailing delimiters the text ends at a character boundary.
pub proof fn lemma_code_end(bytes: Seq<u8>, start: int, end: int)
    requires
        valid_utf8(bytes),
        in_text(bytes, start, end),
    ensures
        in_text(bytes, start, code_end(bytes, start, end)),
        code_end(bytes, start, end) <= end,
    decreases end - start,
{
    if start < end && bytes[end - 1] == TICK {
        lemma_boundary_before_ascii(bytes, end - 1);
        lemma_code_end(bytes, start, end - 1);
    }
}

/// The position of the first child held in `field`.
pub fn find_field(children: &Vec<CstNode>, field: Field) -> (found: Option<usize>)
    ensures
        field_index(children@, field, 0) == match found {
            Some(i) => Some(i as int),
            None => None,
        },
        found matches Some(i) ==> i < children.len(),
{
    let mut i: usize = 0;
    while i < children.len()
        invariant
            i <= children.len(),
            field_index(children@, field, 0) == field_index(children@, field, i as int),
        decreases children.len() - i,
    {
        let here = match children[i].field {
            Some(name) => name == field,
            None => false,
        };
        if here {
            return Some(i);
        }
        i += 1;
    }
    None
}

/// The text of the first child held in `field`.
pub fn field_piece<'a>(children: &Vec<CstNode>, field: Field, content: &'a str) -> (piece: Option<
    &'a str,
>)
    requires
        all_fit(children@, content.spec_bytes()),
    ensures
        match field_text(children@, field, content.spec_bytes()) {
            Some(text) => piece matches Some(p) && p@ == text,
            None => piece is None,
        },
{
    match find_field(children, field) {
        Some(i) => {
            let child = &children[i];
            assert(children@[i as int].fits(content.spec_bytes()));
            Some(slice(content, child.start_byte, child.end_byte))
        },
        None => None,
    }
}

/// The level of an ATX heading with these children.
pub fn heading_level(children: &Vec<CstNode>) -> (level: u8)
    ensures
        level == atx_level(children@),
        1 <= level <= 6,
{
    if children.len() == 0 {
        return 1;
    }
    let first = &children[0];
    if first.end_byte <= first.start_byte {
        1
    } else {
        let run: usize = first.end_byte - first.start_byte;
        if run > 6 {
            6
        } else {
            run as u8
        }
    }
}

/// The code of a code span: its source without the delimiters at its two
/// ends.
pub fn code_piece(content: &str, start: usize, end: usize) -> (code: &str)
    requires
        in_text(content.spec_bytes(), start as int, end as int),
    ensures
        code@ == code_text(content.spec_bytes(), start as int, end as int),
{
    let bytes = content.as_bytes();
    proof {
        encode_utf8_valid_utf8(content@);
        lemma_code_start(bytes@, start as int, end as int);
        lemma_code_end(bytes@, code_start(bytes@, start as int, end as int), end as int);
    }
    let mut from = start;
    while from < end && bytes[from] == TICK
        invariant
            start <= from <= end <= bytes@.len(),
            code_start(bytes@, from as int, end as int) == code_start(
                bytes@,
                start as int,
                end as int,
            ),
        decreases end - from,
    {
        from += 1;
    }
    let mut to = end;
    while from < to && bytes[to - 1] == TICK
        invariant
            from <= to <= end <= bytes@.len(),
            code_end(bytes@, from as int, to as int) == code_end(bytes@, from as int, end as int),
        decreases to - from,
    {
        to -= 1;
    }
    slice(content, from, to)
}

/// A code block with the given language tag and code: no tag where none is
/// given, and no code where none is given.
pub fn code_block(language: Option<&str>, code: Option<&str>) -> (block: MDNode)
    ensures
        block@ == (Md::CodeBlock {
            language: match language {
                Some(tag) => Some(tag@),
                None => None,
            },
            content: match code {
                Some(written) => written@,
                None => Seq::empty(),
            },
        }),
{
    MDNode::CodeBlock {
        language: match language {
            Some(tag) => Some(tag.to_owned()),
            None => None,
        },
        content: match code {
            Some(written) => written.to_owned(),
            None => String::new(),
        },
    }
}

/// The block pass: the document node that a syntax node stands for.
pub fn parse_blocks(node: &CstNode, content: &str) -> (md: MDNode)
    requires
        node.fits(content.spec_bytes()),
    ensures
        md@ == block_of(*node, content.spec_bytes()),
        is_block(md@),
    decreases node, 0nat,
{
    proof {
        lemma_block_shape(*node, content.spec_bytes());
    }
    match node.kind {
        NodeKind::Document => MDNode::Document(block_children(&node.children, content)),
        NodeKind::AtxHeading => MDNode::Heading {
            level: heading_level(&node.children),
            content: inline_content(&node.children, content),
        },
        NodeKind::SetextHeading => MDNode::Heading {
            level: 1,
            content: inline_content(&node.children, content),
        },
        NodeKind::Paragraph => MDNode::Paragraph(inline_content(&node.children, content)),
        NodeKind::FencedCodeBlock => {
            let language = match field_piece(&node.children, Field::Info, content) {
                Some(info) => Some(trim(info)),
                None => None,
            };
            code_block(language, field_piece(&node.children, Field::Content, content))
        },
        NodeKind::List => {
            let ordered = node.children.len() > 0 && matches!(
                node.children[0].kind,
                NodeKind::OrderedList
            );
            MDNode::List { ordered, items: list_items(&node.children, content) }
        },
        NodeKind::BlockQuote => MDNode::BlockQuote(block_children(&node.children, content)),
        _ => MDNode::Text(slice(content, node.start_byte, node.end_byte).to_owned()),
    }
}

/// The block pass on the named nodes among `children`.
pub fn block_children(children: &Vec<CstNode>, content: &str) -> (blocks: Vec<MDNode>)
    requires
        all_fit(children@, content.spec_bytes()),
    ensures
        nodes_view(blocks@) == blocks_of(children@, content.spec_bytes()),
    decreases children, 1nat,
{
    let mut blocks: Vec<MDNode> = Vec::new();
    let mut i: usize = 0;
    while i < children.len()
        invariant
            i <= children.len(),
            all_fit(children@, content.spec_bytes()),
            nodes_view(blocks@) == blocks_of(children@.take(i as int), content.spec_bytes()),
        decreases children.len() - i,
    {
        let child = &children[i];
        proof {
            assert(children@.take(i + 1).drop_last() =~= children@.take(i as int));
        }
        if child.named {
            let block = parse_blocks(child, content);
            proof {
                lemma_nodes_view_push(blocks@, block);
            }
            blocks.push(block);
        }
        i += 1;
    }
    proof {
        assert(children@.take(children.len() as int) =~= children@);
    }
    blocks
}

/// One entry for each named list item among `children`.
pub fn list_items(children: &Vec<CstNode>, content: &str) -> (items: Vec<Vec<MDNode>>)
    requires
        all_fit(children@, content.spec_bytes()),
    ensures
        items_view(items@) == items_of(children@, content.spec_bytes()),
    decreases children, 1nat,
{
    let mut items: Vec<Vec<MDNode>> = Vec::new();
    let mut i: usize = 0;
    while i < children.len()
        invariant
            i <= children.len(),
            all_fit(children@, content.spec_bytes()),
            items_view(items@) == items_of(children@.take(i as int), content.spec_bytes()),
        decreases children.len() - i,
    {
        let child = &children[i];
        proof {
            assert(children@.take(i + 1).drop_last() =~= children@.take(i as int));
        }
        if child.named && matches!(child.kind, NodeKind::ListItem) {
            let item = block_children(&child.children, content);
            proof {
                lemma_items_view_push(items@, item);
            }
            items.push(item);
        }
        i += 1;
    }
    proof {
        assert(children@.take(children.len() as int) =~= children@);
    }
    items
}

/// The inline content of a block with these children.
pub fn inline_content(children: &Vec<CstNode>, content: &str) -> (spans: Vec<MDNode>)
    requires
        all_fit(children@, content.spec_bytes()),
    ensures
        nodes_view(spans@) == content_of(children@, content.spec_bytes()),
    decreases children, 1nat,
{
    let mut spans: Vec<MDNode> = Vec::new();
    let mut i: usize = 0;
    while i < children.len()
        invariant
            i <= children.len(),
            all_fit(children@, content.spec_bytes()),
            nodes_view(spans@) == content_of(children@.take(i as int), content.spec_bytes()),
        decreases children.len() - i,
    {
        let child = &children[i];
        proof {
            assert(children@.take(i + 1).drop_last() =~= children@.take(i as int));
        }
        if child.named && matches!(child.kind, NodeKind::Inline) {
            let mut more = parse_inline(child, content);
            proof {
                lemma_nodes_view_add(spans@, more@);
            }
            spans.append(&mut more);
        }
        i += 1;
    }
    proof {
        assert(children@.take(children.len() as int) =~= children@);
    }
    spans
}

/// The inline pass: the document nodes that the children of `node` stand for.
pub fn parse_inline(node: &CstNode, content: &str) -> (spans: Vec<MDNode>)
    requires
        node.fits(content.spec_bytes()),
    ensures
        nodes_view(spans@) == inline_of(*node, content.spec_bytes()),
        all_inline(nodes_view(spans@)),
    decreases node, 2nat,
{
    proof {
        lemma_inline_shape(*node, content.spec_bytes());
    }
    let children = &node.children;
    let mut spans: Vec<MDNode> = Vec::new();
    let mut i: usize = 0;
    while i < children.len()
        invariant
            i <= children.len(),
            all_fit(children@, content.spec_bytes()),
            children == &node.children,
            nodes_view(spans@) == spans_of(children@.take(i as int), content.spec_bytes()),
        decreases children.len() - i,
    {
        let child = &children[i];
        proof {
            assert(children@.take(i + 1).drop_last() =~= children@.take(i as int));
        }
        if child.named {
            match parse_span(child, content) {
                Some(span) => {
                    proof {
                        lemma_nodes_view_push(spans@, span);
                        assert(nodes_view(spans@) + seq![span@] =~= nodes_view(spans@).push(
                            span@,
                        ));
                    }
                    spans.push(span);
                },
                None => {
                    proof {
                        assert(nodes_view(spans@) + Seq::<Md>::empty() =~= nodes_view(spans@));
                    }
                },
            }
        }
        i += 1;
    }
    proof {
        assert(children@.take(children.len() as int) =~= children@);
    }
    spans
}

/// What one named node stands for inline, if anything.
pub fn parse_span(node: &CstNode, content: &str) -> (span: Option<MDNode>)
    requires
        node.fits(content.spec_bytes()),
    ensures
        match span {
            Some(md) => span_of(*node, content.spec_bytes()) == seq![md@],
            None => span_of(*node, content.spec_bytes()) == Seq::<Md>::empty(),
        },
    decreases node, 3nat,
{
    match node.kind {
        NodeKind::Emphasis => Some(MDNode::Em(parse_inline(node, content))),
        NodeKind::StrongEmphasis => Some(MDNode::Bold(parse_inline(node, content))),
        NodeKind::CodeSpan => Some(
            MDNode::InlineCode(code_piece(content, node.start_byte, node.end_byte).to_owned()),
        ),
        NodeKind::Link => {
            proof {
                lemma_link_text(node.children@, content.spec_bytes(), 0);
            }
            let text = match find_field(&node.children, Field::Text) {
                Some(i) => parse_inline(&node.children[i], content),
                None => Vec::new(),
            };
            let url = match field_piece(&node.children, Field::Url, content) {
                Some(url) => url.to_owned(),
                None => String::new(),
            };
            Some(MDNode::Link { text, url })
        },
        _ => {
            if node.extra {
                None
            } else {
                Some(MDNode::Text(slice(content, node.start_byte, node.end_byte).to_owned()))
            }
        },
    }
}

} // verus!
