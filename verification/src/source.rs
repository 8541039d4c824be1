//! Parsing of the sources that are scanned, by a parser that is made once for each
//! language and used again for every scan.

use std::sync::Arc;
use vstd::prelude::*;

verus! {

/// A syntax tree of the `tree_sitter` crate, carried through without inspection.
#[verifier::external_type_specification]
#[verifier::external_body]
pub struct ExTree(tree_sitter::Tree);

/// A parser of the `tree_sitter` crate.
#[verifier::external_type_specification]
#[verifier::external_body]
pub struct ExParser(tree_sitter::Parser);

/// The fault that `tree_sitter` reports for a grammar that does not fit its parser.
#[verifier::external_type_specification]
#[verifier::external_body]
pub struct ExLanguageError(tree_sitter::LanguageError);

/// The fault with which the parser of `tree_sitter` refuses the grammar that `weggli`
/// brings for C (`cxx` unset) or for C++ (`cxx` set), if it refuses it.
pub uninterp spec fn grammar_fault(cxx: bool) -> Option<tree_sitter::LanguageError>;

/// The tree that the parser gives for `text` under that grammar, if it gives one.
pub uninterp spec fn parsed_tree(text: Seq<char>, cxx: bool) -> Option<tree_sitter::Tree>;

/// Whether the parser gives a tree for `text`.
pub open spec fn source_parses(text: Seq<char>, cxx: bool) -> bool {
    parsed_tree(text, cxx) is Some
}

/// Makes a parser with `tree_sitter::Parser::new` and gives it, through
/// `Parser::set_language`, the grammar of the tree that `weggli::parse` makes of the
/// empty text. Whether the grammar is taken depends on the two libraries as they were
/// built, and on nothing else: `set_language` compares the version of the grammar with
/// the versions that the parser library takes.
#[verifier::external_body]
fn make_parser(cxx: bool) -> (r: Result<tree_sitter::Parser, tree_sitter::LanguageError>)
    ensures
        match r {
            Ok(_) => grammar_fault(cxx) is None,
            Err(e) => grammar_fault(cxx) == Some(e),
        },
{
    let mut parser = tree_sitter::Parser::new();
    parser.set_language(weggli::parse("", cxx).language())?;
    Ok(parser)
}

/// A parser for one language.
///
/// Only [`SourceParser::new`] makes one, so the parser always has the grammar of the
/// language that the flag beside it names.
pub struct SourceParser {
    cxx: bool,
    parser: tree_sitter::Parser,
}

/// Calls `tree_sitter::Parser::parse` without an earlier tree. The parser keeps its
/// language, and what comes back depends on the text and the language alone: the
/// parser has no time limit and no cancellation flag.
#[verifier::external_body]
fn parse_text(parser: &mut SourceParser, text: &str) -> (r: Option<tree_sitter::Tree>)
    ensures
        final(parser).spec_is_cxx() == old(parser).spec_is_cxx(),
        r == parsed_tree(text@, old(parser).spec_is_cxx()),
{
    parser.parser.parse(text, None)
}

impl SourceParser {
    /// Whether the parser is one of C++.
    pub closed spec fn spec_is_cxx(&self) -> bool {
        self.cxx
    }

    /// Makes the parser for C, or for C++ where `cxx` is set.
    pub fn new(cxx: bool) -> (r: Result<SourceParser, tree_sitter::LanguageError>)
        ensures
            match r {
                Ok(p) => grammar_fault(cxx) is None && p.spec_is_cxx() == cxx,
                Err(e) => grammar_fault(cxx) == Some(e),
            },
    {
        match make_parser(cxx) {
            Ok(parser) => Ok(SourceParser { cxx, parser }),
            Err(e) => Err(e),
        }
    }

    /// Whether the parser is one of C++.
    #[verifier::when_used_as_spec(spec_is_cxx)]
    pub fn is_cxx(&self) -> (b: bool)
        ensures
            b == self.spec_is_cxx(),
    {
        self.cxx
    }

    /// Parses a source. Where the parser gives no tree there is no parsed source.
    pub fn parse(&mut self, text: &str) -> (r: Option<ParsedSource>)
        ensures
            final(self).spec_is_cxx() == old(self).spec_is_cxx(),
            r is Some <==> source_parses(text@, old(self).spec_is_cxx()),
            r matches Some(p) ==> p@ == (SourceView {
                text: text@,
                cxx: old(self).spec_is_cxx(),
                tree: parsed_tree(text@, old(self).spec_is_cxx())->Some_0,
            }),
    {
        let cxx = self.cxx;
        match parse_text(self, text) {
            Some(tree) => Some(ParsedSource { text: Arc::new(text.to_owned()), cxx, tree }),
            None => None,
        }
    }
}

/// A parsed source as values: its text, the language it was parsed as, and the tree
/// that the parser gave.
pub struct SourceView {
    pub text: Seq<char>,
    pub cxx: bool,
    pub tree: tree_sitter::Tree,
}

/// A source with its syntax tree.
#[derive(Debug)]
pub struct ParsedSource {
    text: Arc<String>,
    cxx: bool,
    tree: tree_sitter::Tree,
}

impl View for ParsedSource {
    type V = SourceView;

    closed spec fn view(&self) -> SourceView {
        SourceView { text: self.text@, cxx: self.cxx, tree: self.tree }
    }
}

/// Calls `Arc::clone`: a second handle to the same value.
#[verifier::external_body]
pub(crate) fn share<T>(value: &Arc<T>) -> (r: Arc<T>)
    ensures
        r == *value,
{
    Arc::clone(value)
}

impl ParsedSource {
    /// Whether the tree is the one that the parser gives for the text. Every parsed
    /// source is well formed.
    #[verifier::type_invariant]
    pub open spec fn well_formed(self) -> bool {
        parsed_tree(self@.text, self@.cxx) == Some(self@.tree)
    }

    /// The text that was parsed.
    pub fn text(&self) -> (r: &str)
        ensures
            r@ == self@.text,
    {
        self.text.as_str()
    }

    /// The text that was parsed, shared.
    pub fn shared_text(&self) -> (r: Arc<String>)
        ensures
            r@ == self@.text,
    {
        share(&self.text)
    }

    /// Whether the source was parsed as C++.
    pub fn is_cxx(&self) -> (b: bool)
        ensures
            b == self@.cxx,
    {
        self.cxx
    }

    /// The tree that the parser gave for the text.
    pub open spec fn syntax_tree(&self) -> tree_sitter::Tree {
        self@.tree
    }

    /// The syntax tree.
    pub fn tree(&self) -> (r: &tree_sitter::Tree)
        ensures
            *r == self.syntax_tree(),
    {
        &self.tree
    }
}

} // verus!
