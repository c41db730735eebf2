use mad::cst::{CstNode, Field, NodeKind};
use mad::document::MDNode;
use mad::reduce::{code_piece, find_field, heading_level, parse_blocks, parse_inline, parse_span};

fn node(kind: NodeKind, start_byte: usize, end_byte: usize, children: Vec<CstNode>) -> CstNode {
    CstNode {
        kind,
        field: None,
        start_byte,
        end_byte,
        start_column: 0,
        named: true,
        extra: false,
        children,
    }
}

fn leaf(start_byte: usize, end_byte: usize) -> CstNode {
    node(NodeKind::Other, start_byte, end_byte, Vec::new())
}

fn held(field: Field, mut child: CstNode) -> CstNode {
    child.field = Some(field);
    child
}

fn token(start_byte: usize, end_byte: usize) -> CstNode {
    let mut child = leaf(start_byte, end_byte);
    child.named = false;
    child
}

fn text(s: &str) -> MDNode {
    MDNode::Text(s.to_string())
}

fn marker(start_byte: usize, run: usize, start_column: usize) -> CstNode {
    let mut child = leaf(start_byte, start_byte + run);
    child.start_column = start_column;
    child
}

fn at_column(start_column: usize, mut child: CstNode) -> CstNode {
    child.start_column = start_column;
    child
}

#[test]
fn bold_around_emphasis_keeps_its_nesting() {
    let source = "**_x_**";
    let inline = node(
        NodeKind::Inline,
        0,
        7,
        vec![node(
            NodeKind::StrongEmphasis,
            0,
            7,
            vec![node(NodeKind::Emphasis, 2, 5, vec![leaf(3, 4)])],
        )],
    );
    assert_eq!(
        parse_inline(&inline, source),
        vec![MDNode::Bold(vec![MDNode::Em(vec![text("x")])])]
    );
}

#[test]
fn emphasis_around_bold_keeps_its_nesting() {
    let source = "_**x**_";
    let inline = node(
        NodeKind::Inline,
        0,
        7,
        vec![node(
            NodeKind::Emphasis,
            0,
            7,
            vec![node(NodeKind::StrongEmphasis, 1, 6, vec![leaf(3, 4)])],
        )],
    );
    assert_eq!(
        parse_inline(&inline, source),
        vec![MDNode::Em(vec![MDNode::Bold(vec![text("x")])])]
    );
}

#[test]
fn fenced_block_keeps_its_code_as_written() {
    let source = "```rust\nfn f(){}\n```";
    let block = node(
        NodeKind::FencedCodeBlock,
        0,
        20,
        vec![
            token(0, 3),
            held(Field::Info, leaf(3, 7)),
            held(Field::Content, leaf(8, 17)),
            token(17, 20),
        ],
    );
    assert_eq!(
        parse_blocks(&block, source),
        MDNode::CodeBlock {
            language: Some("rust".to_string()),
            content: "fn f(){}\n".to_string(),
        }
    );
}

#[test]
fn code_is_not_read_as_markdown() {
    let source = "```\n**_x_** [a](b)\n```";
    let block = node(
        NodeKind::FencedCodeBlock,
        0,
        22,
        vec![held(
            Field::Content,
            node(
                NodeKind::Other,
                4,
                19,
                vec![node(NodeKind::StrongEmphasis, 4, 11, vec![leaf(7, 8)])],
            ),
        )],
    );
    assert_eq!(
        parse_blocks(&block, source),
        MDNode::CodeBlock { language: None, content: "**_x_** [a](b)\n".to_string() }
    );
}

#[test]
fn info_string_is_trimmed() {
    let source = "``` \t rust  \nx\n```";
    let block = node(
        NodeKind::FencedCodeBlock,
        0,
        18,
        vec![held(Field::Info, leaf(3, 12)), held(Field::Content, leaf(13, 15))],
    );
    assert_eq!(
        parse_blocks(&block, source),
        MDNode::CodeBlock { language: Some("rust".to_string()), content: "x\n".to_string() }
    );
}

#[test]
fn fenced_block_without_fields_is_empty() {
    let source = "```\n```";
    let block = node(NodeKind::FencedCodeBlock, 0, 7, vec![leaf(0, 3), leaf(4, 7)]);
    assert_eq!(
        parse_blocks(&block, source),
        MDNode::CodeBlock { language: None, content: String::new() }
    );
}

#[test]
fn first_child_in_a_field_is_taken() {
    let source = "```a b\n```";
    let block = node(
        NodeKind::FencedCodeBlock,
        0,
        10,
        vec![held(Field::Info, leaf(3, 4)), held(Field::Info, leaf(5, 6))],
    );
    assert_eq!(
        parse_blocks(&block, source),
        MDNode::CodeBlock { language: Some("a".to_string()), content: String::new() }
    );
    assert_eq!(find_field(&block.children, Field::Info), Some(0));
    assert_eq!(find_field(&block.children, Field::Url), None);
}

fn item(start: usize, end: usize, word: usize) -> CstNode {
    node(
        NodeKind::ListItem,
        start,
        end,
        vec![
            token(start, word),
            node(
                NodeKind::Paragraph,
                word,
                word + 1,
                vec![node(NodeKind::Inline, word, word + 1, vec![leaf(word, word + 1)])],
            ),
        ],
    )
}

fn two_items() -> Vec<Vec<MDNode>> {
    vec![vec![MDNode::Paragraph(vec![text("a")])], vec![MDNode::Paragraph(vec![text("b")])]]
}

#[test]
fn ordered_list_keeps_its_items_in_order() {
    let source = "1. a\n2. b";
    let list = node(
        NodeKind::List,
        0,
        9,
        vec![node(NodeKind::OrderedList, 0, 0, Vec::new()), item(0, 5, 3), item(5, 9, 8)],
    );
    assert_eq!(parse_blocks(&list, source), MDNode::List { ordered: true, items: two_items() });
}

#[test]
fn bullet_list_is_not_ordered() {
    let source = "- a\n- b";
    let list = node(NodeKind::List, 0, 7, vec![item(0, 4, 2), item(4, 7, 6)]);
    assert_eq!(parse_blocks(&list, source), MDNode::List { ordered: false, items: two_items() });
}

#[test]
fn list_without_children_is_empty_and_not_ordered() {
    let list = node(NodeKind::List, 0, 0, Vec::new());
    assert_eq!(parse_blocks(&list, ""), MDNode::List { ordered: false, items: Vec::new() });
}

#[test]
fn only_the_first_child_makes_a_list_ordered() {
    let source = "- a\n- b";
    let list = node(
        NodeKind::List,
        0,
        7,
        vec![item(0, 4, 2), node(NodeKind::OrderedList, 4, 4, Vec::new()), item(4, 7, 6)],
    );
    assert_eq!(parse_blocks(&list, source), MDNode::List { ordered: false, items: two_items() });
}

#[test]
fn thematic_break_becomes_text() {
    let source = "---\n";
    let rule = leaf(0, 4);
    assert_eq!(parse_blocks(&rule, source), text("---\n"));
    let document = node(NodeKind::Document, 0, 4, vec![leaf(0, 4)]);
    assert_eq!(parse_blocks(&document, source), MDNode::Document(vec![text("---\n")]));
}

#[test]
fn two_marks_on_the_first_line_are_level_two() {
    let source = "## h";
    let heading = node(
        NodeKind::AtxHeading,
        0,
        4,
        vec![
            marker(0, 2, 0),
            at_column(3, node(NodeKind::Inline, 3, 4, vec![at_column(3, leaf(3, 4))])),
        ],
    );
    let document = node(NodeKind::Document, 0, 4, vec![heading]);
    assert!(document.fits_text(source));
    assert_eq!(
        parse_blocks(&document, source),
        MDNode::Document(vec![MDNode::Heading { level: 2, content: vec![text("h")] }])
    );
}

#[test]
fn atx_level_is_the_number_of_marks() {
    let mut run: usize = 1;
    while run <= 6 {
        let source = format!("{} h", "#".repeat(run));
        let end = source.len();
        let heading = node(
            NodeKind::AtxHeading,
            0,
            end,
            vec![
                marker(0, run, 0),
                at_column(
                    run + 1,
                    node(NodeKind::Inline, run + 1, end, vec![at_column(run + 1, leaf(run + 1, end))]),
                ),
            ],
        );
        assert!(heading.fits_text(&source));
        assert_eq!(
            parse_blocks(&heading, &source),
            MDNode::Heading { level: run as u8, content: vec![text("h")] }
        );
        run += 1;
    }
}

#[test]
fn atx_level_is_the_same_on_a_later_line() {
    let source = "one\n\n## h\n\n  ### i\n";
    let paragraph = node(
        NodeKind::Paragraph,
        0,
        4,
        vec![node(NodeKind::Inline, 0, 3, vec![leaf(0, 3)])],
    );
    let second = node(
        NodeKind::AtxHeading,
        5,
        10,
        vec![
            marker(5, 2, 0),
            at_column(3, node(NodeKind::Inline, 8, 9, vec![at_column(3, leaf(8, 9))])),
        ],
    );
    let third = at_column(
        2,
        node(
            NodeKind::AtxHeading,
            13,
            19,
            vec![
                marker(13, 3, 2),
                at_column(6, node(NodeKind::Inline, 17, 18, vec![at_column(6, leaf(17, 18))])),
            ],
        ),
    );
    let document = node(NodeKind::Document, 0, 19, vec![paragraph, second, third]);
    assert!(document.fits_text(source));
    assert_eq!(
        parse_blocks(&document, source),
        MDNode::Document(vec![
            MDNode::Paragraph(vec![text("one")]),
            MDNode::Heading { level: 2, content: vec![text("h")] },
            MDNode::Heading { level: 3, content: vec![text("i")] },
        ])
    );
}

#[test]
fn atx_level_stays_in_bounds() {
    assert_eq!(heading_level(&vec![marker(0, 7, 0)]), 6);
    assert_eq!(heading_level(&vec![marker(40, 300, 0)]), 6);
    assert_eq!(heading_level(&vec![marker(0, usize::MAX, 0)]), 6);
    assert_eq!(heading_level(&vec![marker(0, 0, 0)]), 1);
    assert_eq!(heading_level(&vec![marker(90, 0, 9)]), 1);
    assert_eq!(heading_level(&vec![leaf(5, 2)]), 1);
    assert_eq!(heading_level(&Vec::new()), 1);
    assert_eq!(heading_level(&vec![marker(0, 1, 0), marker(1, 5, 1)]), 1);
    assert_eq!(heading_level(&vec![marker(77, 6, 3)]), 6);
}

#[test]
fn atx_heading_without_children_has_level_one() {
    let heading = node(NodeKind::AtxHeading, 0, 0, Vec::new());
    assert_eq!(parse_blocks(&heading, ""), MDNode::Heading { level: 1, content: Vec::new() });
}

#[test]
fn setext_heading_has_level_one() {
    let source = "Title\n-----";
    let heading = node(
        NodeKind::SetextHeading,
        0,
        11,
        vec![node(NodeKind::Inline, 0, 5, vec![leaf(0, 5)]), marker(6, 5, 0)],
    );
    assert_eq!(
        parse_blocks(&heading, source),
        MDNode::Heading { level: 1, content: vec![text("Title")] }
    );
}

#[test]
fn plain_paragraph_keeps_every_character() {
    let source = "hello wide wörld";
    let end = source.len();
    let paragraph = node(
        NodeKind::Paragraph,
        0,
        end,
        vec![node(NodeKind::Inline, 0, end, vec![leaf(0, 5), leaf(5, 6), leaf(6, 10), leaf(10, end)])],
    );
    let reduced = parse_blocks(&paragraph, source);
    assert_eq!(
        reduced,
        MDNode::Paragraph(vec![text("hello"), text(" "), text("wide"), text(" wörld")])
    );
    let mut joined = String::new();
    if let MDNode::Paragraph(spans) = reduced {
        for span in spans {
            if let MDNode::Text(piece) = span {
                joined.push_str(&piece);
            }
        }
    }
    assert_eq!(joined, source);
}

#[test]
fn paragraph_joins_its_inline_children() {
    let source = "ab";
    let paragraph = node(
        NodeKind::Paragraph,
        0,
        2,
        vec![
            node(NodeKind::Inline, 0, 1, vec![leaf(0, 1)]),
            leaf(1, 1),
            node(NodeKind::Inline, 1, 2, vec![leaf(1, 2)]),
        ],
    );
    assert_eq!(parse_blocks(&paragraph, source), MDNode::Paragraph(vec![text("a"), text("b")]));
}

#[test]
fn unnamed_children_are_passed_over() {
    let source = "a*b";
    let mut inline_token = node(NodeKind::Inline, 0, 3, vec![leaf(0, 3)]);
    inline_token.named = false;
    let paragraph = node(NodeKind::Paragraph, 0, 3, vec![inline_token]);
    assert_eq!(parse_blocks(&paragraph, source), MDNode::Paragraph(Vec::new()));
    let inline = node(NodeKind::Inline, 0, 3, vec![leaf(0, 1), token(1, 2), leaf(2, 3)]);
    assert_eq!(parse_inline(&inline, source), vec![text("a"), text("b")]);
    let document = node(NodeKind::Document, 0, 3, vec![token(0, 1), leaf(1, 3)]);
    assert_eq!(parse_blocks(&document, source), MDNode::Document(vec![text("*b")]));
}

#[test]
fn extra_nodes_leave_nothing() {
    let source = "a b";
    let mut extra = leaf(1, 2);
    extra.extra = true;
    assert_eq!(parse_span(&extra, source), None);
    let inline = node(NodeKind::Inline, 0, 3, vec![leaf(0, 1), extra, leaf(2, 3)]);
    assert_eq!(parse_inline(&inline, source), vec![text("a"), text("b")]);
}

#[test]
fn extra_emphasis_is_still_emphasis() {
    let source = "_a_";
    let mut emphasis = node(NodeKind::Emphasis, 0, 3, vec![leaf(1, 2)]);
    emphasis.extra = true;
    assert_eq!(parse_span(&emphasis, source), Some(MDNode::Em(vec![text("a")])));
}

#[test]
fn code_span_loses_its_delimiters() {
    assert_eq!(code_piece("`code`", 0, 6), "code");
    assert_eq!(code_piece("``a``", 0, 5), "a");
    assert_eq!(code_piece("`` a ` b ``", 0, 11), " a ` b ");
    assert_eq!(code_piece("```", 0, 3), "");
    assert_eq!(code_piece("`a``", 0, 4), "a");
    assert_eq!(code_piece("``a`b``", 2, 5), "a`b");
    assert_eq!(code_piece("x `a b` y", 2, 7), "a b");
    assert_eq!(code_piece("abc", 0, 3), "abc");
    assert_eq!(code_piece("`abc", 0, 4), "abc");
    assert_eq!(code_piece("abc`", 0, 4), "abc");
    assert_eq!(code_piece("`", 0, 1), "");
    assert_eq!(code_piece("``", 0, 2), "");
    assert_eq!(code_piece("", 0, 0), "");
    assert_eq!(code_piece("` é `", 0, 6), " é ");
    let inline = node(NodeKind::Inline, 0, 6, vec![node(NodeKind::CodeSpan, 0, 6, Vec::new())]);
    assert_eq!(parse_inline(&inline, "`code`"), vec![MDNode::InlineCode("code".to_string())]);
}

#[test]
fn link_has_its_text_and_its_destination() {
    let source = "[a _b_](http://x.y)";
    let link = node(
        NodeKind::Link,
        0,
        19,
        vec![
            token(0, 1),
            held(
                Field::Text,
                node(
                    NodeKind::Other,
                    1,
                    6,
                    vec![leaf(1, 3), node(NodeKind::Emphasis, 3, 6, vec![leaf(4, 5)])],
                ),
            ),
            token(6, 8),
            held(Field::Url, leaf(8, 18)),
            token(18, 19),
        ],
    );
    assert_eq!(
        parse_span(&link, source),
        Some(MDNode::Link {
            text: vec![text("a "), MDNode::Em(vec![text("b")])],
            url: "http://x.y".to_string(),
        })
    );
}

#[test]
fn link_without_fields_is_empty() {
    let source = "[a](b)";
    let link = node(NodeKind::Link, 0, 6, vec![leaf(1, 2), leaf(4, 5)]);
    assert_eq!(
        parse_span(&link, source),
        Some(MDNode::Link { text: Vec::new(), url: String::new() })
    );
}

#[test]
fn block_quotes_nest() {
    let source = "> > deep";
    let mut quote = node(
        NodeKind::BlockQuote,
        4,
        8,
        vec![node(NodeKind::Paragraph, 4, 8, vec![node(NodeKind::Inline, 4, 8, vec![leaf(4, 8)])])],
    );
    let mut expected = MDNode::BlockQuote(vec![MDNode::Paragraph(vec![text("deep")])]);
    let mut depth = 0;
    while depth < 200 {
        quote = node(NodeKind::BlockQuote, 0, 8, vec![token(0, 1), quote]);
        expected = MDNode::BlockQuote(vec![expected]);
        depth += 1;
    }
    assert_eq!(parse_blocks(&quote, source), expected);
}

#[test]
fn block_kinds_are_text_in_the_inline_pass() {
    let source = "# x";
    let inline = node(NodeKind::Inline, 0, 3, vec![node(NodeKind::AtxHeading, 0, 3, vec![leaf(2, 3)])]);
    assert_eq!(parse_inline(&inline, source), vec![text("# x")]);
}

#[test]
fn inline_kinds_are_text_in_the_block_pass() {
    let source = "_x_";
    let emphasis = node(NodeKind::Emphasis, 0, 3, vec![leaf(1, 2)]);
    assert_eq!(parse_blocks(&emphasis, source), text("_x_"));
    let item = node(NodeKind::ListItem, 0, 3, vec![leaf(0, 3)]);
    assert_eq!(parse_blocks(&item, source), text("_x_"));
    let inline = node(NodeKind::Inline, 1, 2, Vec::new());
    assert_eq!(parse_blocks(&inline, source), text("x"));
}

#[test]
fn document_keeps_the_order_of_its_blocks() {
    let source = "a\n\nb\n\n---\n";
    let paragraph = |at: usize| {
        node(NodeKind::Paragraph, at, at + 2, vec![node(NodeKind::Inline, at, at + 1, vec![leaf(at, at + 1)])])
    };
    let document = node(NodeKind::Document, 0, 10, vec![paragraph(0), paragraph(3), leaf(6, 10)]);
    assert_eq!(
        parse_blocks(&document, source),
        MDNode::Document(vec![
            MDNode::Paragraph(vec![text("a")]),
            MDNode::Paragraph(vec![text("b")]),
            text("---\n"),
        ])
    );
}

#[test]
fn plain_document_carries_what_is_written() {
    let source = "one two\n\nthree\n";
    let paragraph = |start: usize, end: usize, cut: usize| {
        node(
            NodeKind::Paragraph,
            start,
            end + 1,
            vec![node(NodeKind::Inline, start, end, vec![leaf(start, cut), leaf(cut, end)])],
        )
    };
    let document = node(NodeKind::Document, 0, 15, vec![paragraph(0, 7, 3), paragraph(9, 14, 12)]);
    assert!(document.fits_text(source));
    let reduced = parse_blocks(&document, source);
    assert_eq!(
        reduced,
        MDNode::Document(vec![
            MDNode::Paragraph(vec![text("one"), text(" two")]),
            MDNode::Paragraph(vec![text("thr"), text("ee")]),
        ])
    );
}

#[test]
fn paragraph_of_several_inline_children_keeps_every_character() {
    let source = "ab cd\nef";
    let paragraph = node(
        NodeKind::Paragraph,
        0,
        8,
        vec![
            node(NodeKind::Inline, 0, 5, vec![leaf(0, 2), leaf(2, 3), leaf(3, 5)]),
            token(5, 6),
            at_column(0, node(NodeKind::Inline, 6, 8, vec![leaf(6, 7), leaf(7, 8)])),
        ],
    );
    assert!(paragraph.fits_text(source));
    let reduced = parse_blocks(&paragraph, source);
    let mut joined = String::new();
    match reduced {
        MDNode::Paragraph(spans) => {
            assert_eq!(spans.len(), 5);
            for span in spans {
                match span {
                    MDNode::Text(piece) => joined.push_str(&piece),
                    other => panic!("not text: {:?}", other),
                }
            }
        }
        other => panic!("not a paragraph: {:?}", other),
    }
    assert_eq!(joined, format!("{}{}", &source[0..5], &source[6..8]));
}
