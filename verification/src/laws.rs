//! What holds of the reducer on every tree: the shape of the document it
//! builds, the bounds of a heading's level, and that plain text comes through
//! unchanged.

use crate::cst::{CstNode, Field, NodeKind};
use crate::document::{all_blocks, all_inline, is_block, Md};
use crate::reduce::{
    all_fit, atx_level, block_of, blocks_of, content_of, inline_of, items_of, link_text,
    marker_run, span_of, spans_of,
};
use crate::text::{in_text, lemma_range_is_text, text_at};
use vstd::prelude::*;
use vstd::utf8::*;

verus! {

/// An ATX heading has a level from 1 to 6. Where its marker, the first child,
/// is 1 to 6 bytes long, that length is the level, wherever the heading
/// stands in the text; a longer marker gives level 6, and a heading without
/// children, or with an empty marker, level 1.
pub proof fn lemma_atx_heading_level(node: CstNode, bytes: Seq<u8>)
    requires
        node.kind == NodeKind::AtxHeading,
    ensures
        block_of(node, bytes) matches Md::Heading { level, content } && {
            &&& 1 <= level <= 6
            &&& level == atx_level(node.children@)
            &&& content == content_of(node.children@, bytes)
            &&& node.children@.len() == 0 ==> level == 1
            &&& node.children@.len() > 0 ==> {
                let run = node.children@[0].end_byte - node.children@[0].start_byte;
                &&& run == marker_run(node.children@[0])
                &&& 1 <= run <= 6 ==> level == run
                &&& run > 6 ==> level == 6
                &&& run < 1 ==> level == 1
            }
        },
{
}

/// The level of an ATX heading rests on the length of its marker alone: two
/// headings whose markers are equally long have the same level, wherever
/// they stand and whatever else they hold.
pub proof fn lemma_level_rests_on_the_marker(
    one: CstNode,
    other: CstNode,
    bytes: Seq<u8>,
    other_bytes: Seq<u8>,
)
    requires
        one.kind == NodeKind::AtxHeading,
        other.kind == NodeKind::AtxHeading,
        one.children@.len() > 0,
        other.children@.len() > 0,
        one.children@[0].end_byte - one.children@[0].start_byte == other.children@[0].end_byte
            - other.children@[0].start_byte,
    ensures
        block_of(one, bytes)->level == block_of(other, other_bytes)->level,
{
}

/// A setext heading has level 1, whatever stands below it.
pub proof fn lemma_setext_heading_level(node: CstNode, bytes: Seq<u8>)
    requires
        node.kind == NodeKind::SetextHeading,
    ensures
        block_of(node, bytes) == (Md::Heading {
            level: 1,
            content: content_of(node.children@, bytes),
        }),
{
}

/// A node that the inline pass hands on as the text it covers.
pub open spec fn is_plain(node: CstNode) -> bool {
    &&& node.named
    &&& !node.extra
    &&& node.kind != NodeKind::Emphasis
    &&& node.kind != NodeKind::StrongEmphasis
    &&& node.kind != NodeKind::CodeSpan
    &&& node.kind != NodeKind::Link
}

/// Every node of `nodes` is plain.
pub open spec fn all_plain(nodes: Seq<CstNode>) -> bool {
    forall|i: int| 0 <= i < nodes.len() ==> is_plain(#[trigger] nodes[i])
}

/// The nodes lie one behind the other and cover `start..end` without a gap.
pub open spec fn tiles(nodes: Seq<CstNode>, start: int, end: int) -> bool
    decreases nodes.len(),
{
    if nodes.len() == 0 {
        start == end
    } else {
        &&& nodes.last().end_byte == end
        &&& tiles(nodes.drop_last(), start, nodes.last().start_byte as int)
    }
}

/// The characters that a node of the document carries, in reading order: its
/// own text, or that of the nodes in it.
pub open spec fn text_of(node: Md) -> Seq<char>
    decreases node, 1nat,
{
    match node {
        Md::Text(text) => text,
        Md::InlineCode(code) => code,
        Md::Em(content) => flat_text(content),
        Md::Bold(content) => flat_text(content),
        Md::Link { text, url } => flat_text(text),
        Md::Paragraph(content) => flat_text(content),
        Md::Heading { level, content } => flat_text(content),
        Md::Document(blocks) => flat_text(blocks),
        Md::BlockQuote(blocks) => flat_text(blocks),
        Md::CodeBlock { language, content } => content,
        Md::List { ordered, items } => items_text(items),
    }
}

/// The characters that the items of a list carry, in reading order.
pub open spec fn items_text(items: Seq<Seq<Md>>) -> Seq<char>
    decreases items, 0nat,
{
    if items.len() == 0 {
        Seq::empty()
    } else {
        items_text(items.drop_last()) + flat_text(items.last())
    }
}

/// The characters that a sequence of nodes carries, in reading order.
pub open spec fn flat_text(nodes: Seq<Md>) -> Seq<char>
    decreases nodes, 0nat,
{
    if nodes.len() == 0 {
        Seq::empty()
    } else {
        flat_text(nodes.drop_last()) + text_of(nodes.last())
    }
}

/// A character boundary of a text that lies in a range of it is one of the
/// range.
pub proof fn lemma_boundary_in_range(bytes: Seq<u8>, start: int, mid: int, end: int)
    requires
        valid_utf8(bytes),
        in_text(bytes, start, end),
        start <= mid <= end,
        is_char_boundary(bytes, mid),
    ensures
        valid_utf8(bytes.subrange(start, end)),
        is_char_boundary(bytes.subrange(start, end), mid - start),
{
    let range = bytes.subrange(start, end);
    lemma_range_is_text(bytes, start, end);
    if mid == end {
        is_char_boundary_start_end_of_seq(range);
    } else if mid > start {
        is_char_boundary_iff_not_is_continuation_byte(bytes, mid);
        is_char_boundary_iff_not_is_continuation_byte(range, mid - start);
    }
}

/// The text of a range is the text up to a boundary in it, then the text
/// from there on.
pub proof fn lemma_text_at_split(bytes: Seq<u8>, start: int, mid: int, end: int)
    requires
        valid_utf8(bytes),
        in_text(bytes, start, end),
        start <= mid <= end,
        is_char_boundary(bytes, mid),
    ensures
        text_at(bytes, start, end) == text_at(bytes, start, mid) + text_at(bytes, mid, end),
{
    let range = bytes.subrange(start, end);
    lemma_boundary_in_range(bytes, start, mid, end);
    decode_utf8_split(range, mid - start);
    assert(range.subrange(0, mid - start) =~= bytes.subrange(start, mid));
    assert(range.subrange(mid - start, range.len() as int) =~= bytes.subrange(mid, end));
}

/// Plain text comes through unchanged: where plain nodes cover a range of
/// the text without a gap, the inline pass on them carries the characters of
/// that range, no more and no fewer.
pub proof fn lemma_plain_text_is_kept(nodes: Seq<CstNode>, bytes: Seq<u8>, start: int, end: int)
    requires
        valid_utf8(bytes),
        all_fit(nodes, bytes),
        all_plain(nodes),
        tiles(nodes, start, end),
        0 <= start <= bytes.len(),
        is_char_boundary(bytes, start),
    ensures
        start <= end <= bytes.len(),
        flat_text(spans_of(nodes, bytes)) == text_at(bytes, start, end),
    decreases nodes.len(),
{
    if nodes.len() == 0 {
        assert(bytes.subrange(start, start) =~= Seq::<u8>::empty());
        assert(valid_utf8(Seq::<u8>::empty()));
        assert(text_at(bytes, start, end) =~= Seq::<char>::empty());
        assert(flat_text(spans_of(nodes, bytes)) =~= Seq::<char>::empty());
    } else {
        let last = nodes.last();
        let front = nodes.drop_last();
        let mid = last.start_byte as int;
        assert(is_plain(last));
        assert(last.fits(bytes));
        assert forall|i: int| 0 <= i < front.len() implies (#[trigger] front[i]).fits(bytes)
            && is_plain(front[i]) by {
            assert(front[i] == nodes[i]);
        }
        lemma_plain_text_is_kept(front, bytes, start, mid);
        let piece = Md::Text(text_at(bytes, mid, end));
        assert(span_of(last, bytes) =~= seq![piece]);
        let before = spans_of(front, bytes);
        assert(spans_of(nodes, bytes) =~= before.push(piece));
        assert(before.push(piece).drop_last() =~= before);
        lemma_text_at_split(bytes, start, mid, end);
        assert(flat_text(before.push(piece)) == flat_text(before) + text_of(piece));
    }
}

/// The same of a whole inline node: where its children are plain and cover
/// its range, the inline pass carries the characters of the node.
pub proof fn lemma_plain_inline_keeps_text(node: CstNode, bytes: Seq<u8>)
    requires
        valid_utf8(bytes),
        node.fits(bytes),
        all_plain(node.children@),
        tiles(node.children@, node.start_byte as int, node.end_byte as int),
    ensures
        flat_text(inline_of(node, bytes)) == text_at(
            bytes,
            node.start_byte as int,
            node.end_byte as int,
        ),
{
    lemma_plain_text_is_kept(
        node.children@,
        bytes,
        node.start_byte as int,
        node.end_byte as int,
    );
}

/// Every node of the sequence is text.
pub open spec fn all_text(nodes: Seq<Md>) -> bool {
    forall|i: int| 0 <= i < nodes.len() ==> (#[trigger] nodes[i]) is Text
}

/// An inline node that holds plain text only, and nothing of its range
/// beside it: its children are plain and cover it without a gap.
pub open spec fn is_plain_inline(node: CstNode) -> bool {
    &&& all_plain(node.children@)
    &&& tiles(node.children@, node.start_byte as int, node.end_byte as int)
}

/// Every inline node that a block reads among `nodes` holds plain text only.
pub open spec fn plain_content(nodes: Seq<CstNode>) -> bool {
    forall|i: int|
        0 <= i < nodes.len() && (#[trigger] nodes[i]).named && nodes[i].kind == NodeKind::Inline
            ==> is_plain_inline(nodes[i])
}

/// What is written in the inline nodes that a block reads among `nodes`: the
/// text of each one's range, one after the other.
pub open spec fn inline_text(nodes: Seq<CstNode>, bytes: Seq<u8>) -> Seq<char>
    decreases nodes.len(),
{
    if nodes.len() == 0 {
        Seq::empty()
    } else if nodes.last().named && nodes.last().kind == NodeKind::Inline {
        inline_text(nodes.drop_last(), bytes) + text_at(
            bytes,
            nodes.last().start_byte as int,
            nodes.last().end_byte as int,
        )
    } else {
        inline_text(nodes.drop_last(), bytes)
    }
}

/// The characters of two sequences of nodes, one behind the other, are the
/// characters of the first, then those of the second.
pub proof fn lemma_flat_text_add(front: Seq<Md>, back: Seq<Md>)
    ensures
        flat_text(front + back) == flat_text(front) + flat_text(back),
    decreases back.len(),
{
    if back.len() == 0 {
        assert(front + back =~= front);
        assert(flat_text(front) + flat_text(back) =~= flat_text(front));
    } else {
        lemma_flat_text_add(front, back.drop_last());
        assert((front + back).drop_last() =~= front + back.drop_last());
        assert((front + back).last() == back.last());
        assert(flat_text(front) + flat_text(back) =~= (flat_text(front) + flat_text(
            back.drop_last(),
        )) + text_of(back.last()));
    }
}

/// The inline pass on plain nodes gives text and nothing else.
pub proof fn lemma_plain_spans_are_text(nodes: Seq<CstNode>, bytes: Seq<u8>)
    requires
        all_plain(nodes),
    ensures
        all_text(spans_of(nodes, bytes)),
    decreases nodes.len(),
{
    if nodes.len() > 0 {
        let front = nodes.drop_last();
        assert(is_plain(nodes.last()));
        assert forall|i: int| 0 <= i < front.len() implies is_plain(#[trigger] front[i]) by {
            assert(front[i] == nodes[i]);
        }
        lemma_plain_spans_are_text(front, bytes);
        let before = spans_of(front, bytes);
        let spans = spans_of(nodes, bytes);
        let piece = Md::Text(
            text_at(bytes, nodes.last().start_byte as int, nodes.last().end_byte as int),
        );
        assert(span_of(nodes.last(), bytes) =~= seq![piece]);
        assert(spans =~= before.push(piece));
        assert forall|i: int| 0 <= i < spans.len() implies (#[trigger] spans[i]) is Text by {
            if i < before.len() {
                assert(spans[i] == before[i]);
            }
        }
    }
}

/// Text fidelity of a block's inline content: where every inline node that
/// the block reads holds plain text only, the content is text and nothing
/// else, and its characters are those written in the inline nodes, in order:
/// none lost, none added.
pub proof fn lemma_plain_content_keeps_text(nodes: Seq<CstNode>, bytes: Seq<u8>)
    requires
        valid_utf8(bytes),
        all_fit(nodes, bytes),
        plain_content(nodes),
    ensures
        all_text(content_of(nodes, bytes)),
        flat_text(content_of(nodes, bytes)) == inline_text(nodes, bytes),
    decreases nodes.len(),
{
    if nodes.len() > 0 {
        let last = nodes.last();
        let front = nodes.drop_last();
        assert(last.fits(bytes));
        assert forall|i: int| 0 <= i < front.len() implies (#[trigger] front[i]).fits(bytes) by {
            assert(front[i] == nodes[i]);
        }
        assert forall|i: int|
            0 <= i < front.len() && (#[trigger] front[i]).named && front[i].kind
                == NodeKind::Inline implies is_plain_inline(front[i]) by {
            assert(front[i] == nodes[i]);
        }
        lemma_plain_content_keeps_text(front, bytes);
        if last.named && last.kind == NodeKind::Inline {
            assert(is_plain_inline(last));
            lemma_plain_inline_keeps_text(last, bytes);
            lemma_plain_spans_are_text(last.children@, bytes);
            lemma_flat_text_add(content_of(front, bytes), inline_of(last, bytes));
        }
    }
}

/// Text fidelity of a paragraph: a paragraph whose inline children hold
/// plain text only, however many they are, is a paragraph of text nodes that
/// carry the characters of those children, in order.
pub proof fn lemma_plain_paragraph_keeps_text(node: CstNode, bytes: Seq<u8>)
    requires
        valid_utf8(bytes),
        node.fits(bytes),
        node.kind == NodeKind::Paragraph,
        plain_content(node.children@),
    ensures
        block_of(node, bytes) matches Md::Paragraph(content) && all_text(content) && flat_text(
            content,
        ) == inline_text(node.children@, bytes),
        text_of(block_of(node, bytes)) == inline_text(node.children@, bytes),
{
    lemma_plain_content_keeps_text(node.children@, bytes);
}

/// Text fidelity of a heading: what marks the heading goes into its level,
/// and its content carries the characters of its inline children only.
pub proof fn lemma_plain_heading_keeps_text(node: CstNode, bytes: Seq<u8>)
    requires
        valid_utf8(bytes),
        node.fits(bytes),
        node.kind == NodeKind::AtxHeading || node.kind == NodeKind::SetextHeading,
        plain_content(node.children@),
    ensures
        block_of(node, bytes) matches Md::Heading { level, content } && all_text(content)
            && flat_text(content) == inline_text(node.children@, bytes),
{
    lemma_plain_content_keeps_text(node.children@, bytes);
}

/// A paragraph of plain text.
pub open spec fn is_plain_paragraph(node: CstNode) -> bool {
    &&& node.named
    &&& node.kind == NodeKind::Paragraph
    &&& plain_content(node.children@)
}

/// What is written in plain paragraphs: the text of each one's inline
/// children, one paragraph after the other.
pub open spec fn written(paragraphs: Seq<CstNode>, bytes: Seq<u8>) -> Seq<char>
    decreases paragraphs.len(),
{
    if paragraphs.len() == 0 {
        Seq::empty()
    } else {
        written(paragraphs.drop_last(), bytes) + inline_text(paragraphs.last().children@, bytes)
    }
}

/// Plain paragraphs, reduced one after the other, carry what is written in
/// them.
pub proof fn lemma_plain_paragraphs_keep_text(paragraphs: Seq<CstNode>, bytes: Seq<u8>)
    requires
        valid_utf8(bytes),
        all_fit(paragraphs, bytes),
        forall|i: int| 0 <= i < paragraphs.len() ==> is_plain_paragraph(#[trigger] paragraphs[i]),
    ensures
        flat_text(blocks_of(paragraphs, bytes)) == written(paragraphs, bytes),
    decreases paragraphs.len(),
{
    if paragraphs.len() > 0 {
        let last = paragraphs.last();
        let front = paragraphs.drop_last();
        assert(is_plain_paragraph(last));
        assert(last.fits(bytes));
        assert forall|i: int| 0 <= i < front.len() implies (#[trigger] front[i]).fits(bytes)
            && is_plain_paragraph(front[i]) by {
            assert(front[i] == paragraphs[i]);
        }
        lemma_plain_paragraphs_keep_text(front, bytes);
        lemma_plain_paragraph_keeps_text(last, bytes);
        let before = blocks_of(front, bytes);
        let block = block_of(last, bytes);
        assert(blocks_of(paragraphs, bytes) =~= before.push(block));
        assert(before.push(block).drop_last() =~= before);
    }
}

/// Text fidelity: a document of plain paragraphs carries exactly the
/// characters written in them, in order; what the blocks put around their
/// text is not among them.
pub proof fn lemma_plain_document_keeps_text(node: CstNode, bytes: Seq<u8>)
    requires
        valid_utf8(bytes),
        node.fits(bytes),
        node.kind == NodeKind::Document,
        forall|i: int|
            0 <= i < node.children@.len() ==> is_plain_paragraph(#[trigger] node.children@[i]),
    ensures
        text_of(block_of(node, bytes)) == written(node.children@, bytes),
{
    lemma_plain_paragraphs_keep_text(node.children@, bytes);
}

/// The block pass builds a block of the model, whatever the tree: every
/// heading in it has a level from 1 to 6, and what stands in a text flow is
/// inline.
pub proof fn lemma_block_shape(node: CstNode, bytes: Seq<u8>)
    ensures
        is_block(block_of(node, bytes)),
    decreases node, 0nat, 0nat,
{
    match node.kind {
        NodeKind::Document => lemma_blocks_shape(node.children@, bytes),
        NodeKind::BlockQuote => lemma_blocks_shape(node.children@, bytes),
        NodeKind::AtxHeading => lemma_content_shape(node.children@, bytes),
        NodeKind::SetextHeading => lemma_content_shape(node.children@, bytes),
        NodeKind::Paragraph => lemma_content_shape(node.children@, bytes),
        NodeKind::List => {
            lemma_items_shape(node.children@, bytes);
            let items = items_of(node.children@, bytes);
            assert forall|i: int|
                #![trigger items[i]]
                0 <= i < items.len() implies forall|j: int|
                0 <= j < items[i].len() ==> is_block(#[trigger] items[i][j]) by {
                assert(all_blocks(items[i]));
            }
        },
        _ => {},
    }
}

/// The block pass on a sequence of nodes builds blocks only.
pub proof fn lemma_blocks_shape(nodes: Seq<CstNode>, bytes: Seq<u8>)
    ensures
        all_blocks(blocks_of(nodes, bytes)),
    decreases nodes, 1nat, 0nat,
{
    if nodes.len() > 0 {
        lemma_blocks_shape(nodes.drop_last(), bytes);
        if nodes.last().named {
            lemma_block_shape(nodes.last(), bytes);
        }
    }
}

/// The items of a list hold blocks only.
pub proof fn lemma_items_shape(nodes: Seq<CstNode>, bytes: Seq<u8>)
    ensures
        forall|i: int|
            0 <= i < items_of(nodes, bytes).len() ==> all_blocks(
                #[trigger] items_of(nodes, bytes)[i],
            ),
    decreases nodes, 1nat, 0nat,
{
    if nodes.len() > 0 {
        let front = items_of(nodes.drop_last(), bytes);
        let items = items_of(nodes, bytes);
        lemma_items_shape(nodes.drop_last(), bytes);
        if nodes.last().named && nodes.last().kind == NodeKind::ListItem {
            lemma_blocks_shape(nodes.last().children@, bytes);
        }
        assert forall|i: int| 0 <= i < items.len() implies all_blocks(#[trigger] items[i]) by {
            if i < front.len() {
                assert(items[i] == front[i]);
            }
        }
    }
}

/// The inline content of a block holds inline nodes only.
pub proof fn lemma_content_shape(nodes: Seq<CstNode>, bytes: Seq<u8>)
    ensures
        all_inline(content_of(nodes, bytes)),
    decreases nodes, 1nat, 0nat,
{
    if nodes.len() > 0 {
        lemma_content_shape(nodes.drop_last(), bytes);
        if nodes.last().named && nodes.last().kind == NodeKind::Inline {
            lemma_inline_shape(nodes.last(), bytes);
        }
    }
}

/// The inline pass builds inline nodes only.
pub proof fn lemma_inline_shape(node: CstNode, bytes: Seq<u8>)
    ensures
        all_inline(inline_of(node, bytes)),
    decreases node, 2nat, 0nat,
{
    lemma_spans_shape(node.children@, bytes);
}

/// The inline pass on a sequence of nodes builds inline nodes only.
pub proof fn lemma_spans_shape(nodes: Seq<CstNode>, bytes: Seq<u8>)
    ensures
        all_inline(spans_of(nodes, bytes)),
    decreases nodes, 1nat, 0nat,
{
    if nodes.len() > 0 {
        lemma_spans_shape(nodes.drop_last(), bytes);
        if nodes.last().named {
            lemma_span_shape(nodes.last(), bytes);
        }
    }
}

/// What one node stands for inline is at most one node, and an inline one.
pub proof fn lemma_span_shape(node: CstNode, bytes: Seq<u8>)
    ensures
        all_inline(span_of(node, bytes)),
        span_of(node, bytes).len() <= 1,
    decreases node, 3nat, 0nat,
{
    match node.kind {
        NodeKind::Emphasis => lemma_inline_shape(node, bytes),
        NodeKind::StrongEmphasis => lemma_inline_shape(node, bytes),
        NodeKind::Link => lemma_link_text_shape(node.children@, bytes, 0),
        _ => {},
    }
}

/// The text of a link holds inline nodes only.
pub proof fn lemma_link_text_shape(children: Seq<CstNode>, bytes: Seq<u8>, from: int)
    ensures
        all_inline(link_text(children, bytes, from)),
    decreases children, 2nat, children.len() - from,
{
    if 0 <= from < children.len() {
        if children[from].field == Some(Field::Text) {
            lemma_inline_shape(children[from], bytes);
        } else {
            lemma_link_text_shape(children, bytes, from + 1);
        }
    }
}

} // verus!
