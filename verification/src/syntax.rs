//! The grammar adapter: one parser with the Markdown block grammar, and the
//! way from a text to its document.

use crate::cst::{CstNode, Field, NodeKind};
use crate::document::{is_block, MDNode};
use crate::reduce::{block_of, parse_blocks};
use vstd::prelude::*;
use vstd::string::StringSliceAdditionalSpecFns;

verus! {

/// `tree_sitter::Parser`: nothing is known of what is in it.
#[verifier::external_type_specification]
#[verifier::external_body]
pub struct ExParser(tree_sitter::Parser);

/// `tree_sitter::Language`: a grammar, carried as it comes.
#[verifier::external_type_specification]
#[verifier::external_body]
pub struct ExLanguage(tree_sitter::Language);

/// `tree_sitter::LanguageError`: why a parser did not take a grammar.
#[verifier::external_type_specification]
#[verifier::external_body]
pub struct ExLanguageError(tree_sitter::LanguageError);

/// `tree_sitter::Tree`: what the parser found, read through its nodes.
#[verifier::external_type_specification]
#[verifier::external_body]
pub struct ExTree(tree_sitter::Tree);

/// `tree_sitter::Node`: a node of a tree, read through the functions below.
#[verifier::external_type_specification]
#[verifier::external_body]
pub struct ExNode<'tree>(tree_sitter::Node<'tree>);

/// `tree_sitter::Parser::new`: a parser without a grammar.
#[verifier::external_body]
fn new_parser() -> tree_sitter::Parser {
    tree_sitter::Parser::new()
}

/// The block grammar of `tree_sitter_md`, as `tree_sitter::Language::from`
/// loads it.
#[verifier::external_body]
fn block_grammar() -> tree_sitter::Language {
    tree_sitter::Language::from(tree_sitter_md::LANGUAGE)
}

/// `tree_sitter::Parser::set_language`. Whether the parser takes the grammar
/// is for tree-sitter to say.
#[verifier::external_body]
fn set_grammar(parser: &mut tree_sitter::Parser, grammar: &tree_sitter::Language) -> Result<
    (),
    tree_sitter::LanguageError,
> {
    parser.set_language(grammar)
}

/// `tree_sitter::Parser::parse` on the whole text, with no earlier tree. It
/// may find no tree.
#[verifier::external_body]
fn run_parser(parser: &mut tree_sitter::Parser, content: &str) -> Option<tree_sitter::Tree> {
    parser.parse(content, None)
}

/// `tree_sitter::Tree::root_node`.
#[verifier::external_body]
fn root_of<'tree>(tree: &'tree tree_sitter::Tree) -> tree_sitter::Node<'tree> {
    tree.root_node()
}

/// `tree_sitter::Node::kind`: the grammar's tag of the node.
#[verifier::external_body]
fn kind_name<'tree>(node: &tree_sitter::Node<'tree>) -> &'tree str {
    node.kind()
}

/// `tree_sitter::Node::descendant_count`.
#[verifier::external_body]
fn descendants(node: &tree_sitter::Node<'_>) -> usize {
    node.descendant_count()
}

/// `tree_sitter::Node::child_count`.
#[verifier::external_body]
fn child_count(node: &tree_sitter::Node<'_>) -> u32 {
    node.child_count()
}

/// `tree_sitter::Node::child`: the child at `index`, if there is one.
#[verifier::external_body]
fn child_at<'tree>(node: &tree_sitter::Node<'tree>, index: u32) -> Option<
    tree_sitter::Node<'tree>,
> {
    node.child(index)
}

/// `tree_sitter::Node::field_name_for_child`: the field that holds the child
/// at `index`, if one does.
#[verifier::external_body]
fn child_field<'tree>(node: &tree_sitter::Node<'tree>, index: u32) -> Option<&'tree str> {
    node.field_name_for_child(index)
}

/// `tree_sitter::Node::start_byte`.
#[verifier::external_body]
fn start_byte(node: &tree_sitter::Node<'_>) -> usize {
    node.start_byte()
}

/// `tree_sitter::Node::end_byte`.
#[verifier::external_body]
fn end_byte(node: &tree_sitter::Node<'_>) -> usize {
    node.end_byte()
}

/// The column of `tree_sitter::Node::start_position`.
#[verifier::external_body]
fn start_column(node: &tree_sitter::Node<'_>) -> usize {
    node.start_position().column
}

/// `tree_sitter::Node::is_named`.
#[verifier::external_body]
fn is_named(node: &tree_sitter::Node<'_>) -> bool {
    node.is_named()
}

/// `tree_sitter::Node::is_extra`.
#[verifier::external_body]
fn is_extra(node: &tree_sitter::Node<'_>) -> bool {
    node.is_extra()
}

/// Why a text has no document.
#[derive(Debug, Clone, Copy, PartialEq, Eq, Structural)]
pub enum ParseFailure {
    /// The parser gave no tree of the text: none at all, or none whose root
    /// is a document and whose byte ranges are ranges of the text.
    NoTree,
}

/// Why there is no parser.
#[derive(Debug)]
pub enum GrammarError {
    /// The parser did not take the Markdown grammar, for the reason it gave.
    Rejected(tree_sitter::LanguageError),
}

/// What the parser's answer to a grammar means for the library.
pub open spec fn grammar_outcome(taken: Result<(), tree_sitter::LanguageError>) -> Result<
    (),
    GrammarError,
> {
    match taken {
        Ok(_) => Ok(()),
        Err(why) => Err(GrammarError::Rejected(why)),
    }
}

/// Decides on the parser's answer to a grammar: a grammar that was taken is
/// in use, and one that was not is rejected, with the reason handed on.
pub fn grammar_taken(taken: Result<(), tree_sitter::LanguageError>) -> (outcome: Result<
    (),
    GrammarError,
>)
    ensures
        outcome == grammar_outcome(taken),
{
    match taken {
        Ok(_) => Ok(()),
        Err(why) => Err(GrammarError::Rejected(why)),
    }
}

/// A tree that the reducer can read as the document of a text.
pub open spec fn is_tree_of(tree: CstNode, bytes: Seq<u8>) -> bool {
    tree.kind == NodeKind::Document && tree.fits(bytes)
}

/// What the adapter answers when the parser has found `tree`.
pub open spec fn accepted(tree: Option<CstNode>, bytes: Seq<u8>) -> Result<CstNode, ParseFailure> {
    match tree {
        Some(root) => if is_tree_of(root, bytes) {
            Ok(root)
        } else {
            Err(ParseFailure::NoTree)
        },
        None => Err(ParseFailure::NoTree),
    }
}

/// Decides on what the parser has found: a tree of the text is handed on,
/// anything else is no tree.
pub fn accept(tree: Option<CstNode>, content: &str) -> (checked: Result<CstNode, ParseFailure>)
    ensures
        checked == accepted(tree, content.spec_bytes()),
{
    match tree {
        Some(root) => {
            if matches!(root.kind, NodeKind::Document) && root.fits_text(content) {
                Ok(root)
            } else {
                Err(ParseFailure::NoTree)
            }
        },
        None => Err(ParseFailure::NoTree),
    }
}

/// Copies a node of the parser's tree, and all below it, into plain values.
/// The copy is held in `field`, as the caller found the node held. `fuel`
/// bounds the depth: no copy is deeper than `fuel` levels, and there is none
/// where the tree goes deeper. What the node says of itself is for the
/// grammar runtime to say.
fn read_node(node: &tree_sitter::Node<'_>, field: Option<Field>, fuel: usize) -> (copy: Option<
    CstNode,
>)
    ensures
        fuel == 0 ==> copy is None,
        copy matches Some(root) ==> root.field == field && root.within(fuel as nat),
    decreases fuel,
{
    if fuel == 0 {
        return None;
    }
    let count = child_count(node);
    let mut children: Vec<CstNode> = Vec::new();
    let mut index: u32 = 0;
    while index < count
        invariant
            index <= count,
            fuel > 0,
            forall|k: int|
                0 <= k < children.len() ==> (#[trigger] children[k]).within((fuel - 1) as nat),
        decreases count - index,
    {
        if let Some(child) = child_at(node, index) {
            let held = match child_field(node, index) {
                Some(name) => Some(Field::from_name(name)),
                None => None,
            };
            match read_node(&child, held, fuel - 1) {
                Some(copy) => children.push(copy),
                None => {
                    return None;
                },
            }
        }
        index += 1;
    }
    Some(
        CstNode {
            kind: NodeKind::from_name(kind_name(node)),
            field,
            start_byte: start_byte(node),
            end_byte: end_byte(node),
            start_column: start_column(node),
            named: is_named(node),
            extra: is_extra(node),
            children,
        },
    )
}

/// A parser for Markdown.
pub struct MarkdownParser {
    /// The parser of the grammar runtime.
    inner: tree_sitter::Parser,
    /// The grammar that the parser was given, kept for as long as it lives.
    lang: tree_sitter::Language,
}

impl MarkdownParser {
    /// A parser with the Markdown block grammar, unless the parser rejects
    /// the grammar; its reason is then handed on. Whether it does is for the
    /// parser to say;
    /// [`grammar_taken`] says what becomes of its answer.
    pub fn new() -> (made: Result<MarkdownParser, GrammarError>) {
        let mut inner = new_parser();
        let lang = block_grammar();
        let taken = set_grammar(&mut inner, &lang);
        match grammar_taken(taken) {
            Ok(_) => Ok(MarkdownParser { inner, lang }),
            Err(why) => Err(why),
        }
    }

    /// The syntax tree of `content`. On success its root is a document that
    /// no field holds, and every byte range in it is a range of `content`.
    /// Whether the parser finds such a tree is for the parser to say;
    /// [`accept`] says what becomes of what it found.
    pub fn tree(&mut self, content: &str) -> (found: Result<CstNode, ParseFailure>)
        ensures
            found matches Ok(root) ==> is_tree_of(root, content.spec_bytes()),
            found matches Ok(root) ==> root.field is None,
            found matches Err(why) ==> why == ParseFailure::NoTree,
    {
        let copy = match run_parser(&mut self.inner, content) {
            Some(tree) => {
                let root = root_of(&tree);
                read_node(&root, None, descendants(&root))
            },
            None => None,
        };
        accept(copy, content)
    }

    /// The document of `content`: the block pass on its syntax tree. Which
    /// tree a text has is for the grammar to say; what the document of a
    /// tree is, [`parse_blocks`] says.
    pub fn parse(&mut self, content: &str) -> (parsed: Result<MDNode, ParseFailure>)
        ensures
            parsed matches Ok(md) ==> exists|root: CstNode|
                is_tree_of(root, content.spec_bytes()) && md@ == #[trigger] block_of(
                    root,
                    content.spec_bytes(),
                ),
            parsed matches Ok(md) ==> md@ is Document && is_block(md@),
            parsed matches Err(why) ==> why == ParseFailure::NoTree,
    {
        match self.tree(content) {
            Ok(root) => Ok(parse_blocks(&root, content)),
            Err(why) => Err(why),
        }
    }
}

} // verus!
