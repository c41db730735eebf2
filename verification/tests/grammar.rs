use mad::cst::{CstNode, NodeKind};
use mad::document::MDNode;
use mad::reduce::parse_blocks;
use mad::syntax::MarkdownParser;

fn parser() -> MarkdownParser {
    match MarkdownParser::new() {
        Ok(parser) => parser,
        Err(why) => panic!("no parser: {:?}", why),
    }
}

fn count(tree: &CstNode, kind: NodeKind) -> usize {
    let mut found = if tree.kind == kind { 1 } else { 0 };
    for child in &tree.children {
        found += count(child, kind);
    }
    found
}

#[test]
fn the_grammar_is_taken() {
    assert!(MarkdownParser::new().is_ok());
}

#[test]
fn empty_text_is_an_empty_document() {
    let mut parser = parser();
    assert_eq!(parser.parse(""), Ok(MDNode::Document(Vec::new())));
}

#[test]
fn the_root_is_a_document_that_covers_the_text() {
    let mut parser = parser();
    let source = "# Title\n\nhello *wörld*\n\n> quote\n\n- a\n- b\n";
    let tree = match parser.tree(source) {
        Ok(tree) => tree,
        Err(why) => panic!("no tree: {:?}", why),
    };
    assert_eq!(tree.kind, NodeKind::Document);
    assert_eq!(tree.field, None);
    assert_eq!(tree.start_byte, 0);
    assert_eq!(tree.end_byte, source.len());
    assert!(tree.named);
    assert!(tree.fits_text(source));
}

#[test]
fn the_tree_names_the_blocks_of_the_grammar() {
    let mut parser = parser();
    let source = "# Title\n\nhello *world*\n\n> quote\n\n- a\n- b\n\n```rust\nfn f(){}\n```\n";
    let tree = match parser.tree(source) {
        Ok(tree) => tree,
        Err(why) => panic!("no tree: {:?}", why),
    };
    assert_eq!(count(&tree, NodeKind::Document), 1);
    assert_eq!(count(&tree, NodeKind::AtxHeading), 1);
    assert_eq!(count(&tree, NodeKind::BlockQuote), 1);
    assert_eq!(count(&tree, NodeKind::List), 1);
    assert_eq!(count(&tree, NodeKind::ListItem), 2);
    assert_eq!(count(&tree, NodeKind::FencedCodeBlock), 1);
    assert_eq!(count(&tree, NodeKind::Paragraph), 4);
    assert_eq!(count(&tree, NodeKind::Inline), 5);
}

#[test]
fn a_parser_can_be_used_again() {
    let mut parser = parser();
    let first = parser.parse("one\n");
    let second = parser.parse("two\n");
    let again = parser.parse("one\n");
    assert!(first.is_ok());
    assert!(second.is_ok());
    assert_eq!(first, again);
    assert_ne!(first, second);
}

#[test]
fn the_document_of_a_text_keeps_its_characters() {
    let mut parser = parser();
    let source = "hello *wörld*\n";
    let parsed = parser.parse(source);
    assert_eq!(parsed, Ok(MDNode::Document(vec![MDNode::Text(source.to_string())])));
}

#[test]
fn deep_nesting_is_copied_whole() {
    let mut parser = parser();
    let mut source = String::new();
    let mut depth = 0;
    while depth < 60 {
        source.push_str("> ");
        depth += 1;
    }
    source.push_str("deep\n");
    let tree = match parser.tree(&source) {
        Ok(tree) => tree,
        Err(why) => panic!("no tree: {:?}", why),
    };
    assert_eq!(count(&tree, NodeKind::BlockQuote), 60);
    assert_eq!(count(&tree, NodeKind::Paragraph), 1);
}

fn heading_levels(tree: &CstNode, source: &str, levels: &mut Vec<u8>) {
    if tree.kind == NodeKind::AtxHeading {
        match parse_blocks(tree, source) {
            MDNode::Heading { level, .. } => levels.push(level),
            other => panic!("not a heading: {:?}", other),
        }
    }
    for child in &tree.children {
        heading_levels(child, source, levels);
    }
}

#[test]
fn headings_of_the_grammar_have_the_level_of_their_marks() {
    let mut parser = parser();
    let source = "# a\n\n## b\n\ntext\n\n###### c\n";
    let tree = match parser.tree(source) {
        Ok(tree) => tree,
        Err(why) => panic!("no tree: {:?}", why),
    };
    let mut levels = Vec::new();
    heading_levels(&tree, source, &mut levels);
    assert_eq!(levels, vec![1, 2, 6]);
}

#[test]
fn two_marks_at_the_start_of_a_text_are_level_two() {
    let mut parser = parser();
    let source = "## h\n";
    let tree = match parser.tree(source) {
        Ok(tree) => tree,
        Err(why) => panic!("no tree: {:?}", why),
    };
    let mut levels = Vec::new();
    heading_levels(&tree, source, &mut levels);
    assert_eq!(levels, vec![2]);
}
