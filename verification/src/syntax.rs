//! The syntax tree of a pattern text as plain values, and what is read off it before
//! the pattern goes to the query engine: the shape of its top, and whether each of its
//! statements stands where the engine can take it.
//!
//! The engine writes a statement that is an expression as the expression alone, and a
//! statement under the label `not` as nothing at all. Both are sound where the statement
//! stands directly in a block. Elsewhere, as the whole body of an `if` or a loop, they
//! leave the engine with a query that its parser library refuses, and the engine then
//! ends the process. So such patterns are refused here.
//!
//! The engine also writes the text of every name, type and number of a pattern into its
//! query between double quotes, as it stands, and so it does with tokens. A double
//! quote, a backslash or a line break in such a text, or a double quote in a token such
//! as the opening of a prefixed string literal, makes the query another one than was
//! meant, or none at all, so patterns with one are refused as well.

use crate::text::{chars_of, same_text};
use vstd::prelude::*;

verus! {

/// A node of a syntax tree of the `tree_sitter` crate.
#[verifier::external_type_specification]
#[verifier::external_body]
pub struct ExNode<'a>(tree_sitter::Node<'a>);

/// A node of a syntax tree: its kind, whether it is named, the text it covers, and its
/// children in their order.
#[derive(Debug)]
pub struct SyntaxNode {
    pub kind: String,
    pub named: bool,
    pub text: String,
    pub children: Vec<SyntaxNode>,
}

/// A syntax tree, with whether it holds an error.
#[derive(Debug)]
pub struct Syntax {
    pub has_error: bool,
    pub root: SyntaxNode,
}

/// The tree that the parser of `weggli` reads from `text`, taken as C++ where `cxx` is
/// set and as C where it is not.
pub uninterp spec fn query_syntax(text: Seq<char>, cxx: bool) -> Syntax;

/// Copies a node of `tree_sitter` with `Node::kind`, `Node::is_named`, the part of
/// `text` in `Node::byte_range`, and each `Node::child` by this function again.
#[verifier::external_body]
fn copy_node(node: tree_sitter::Node, text: &str) -> SyntaxNode {
    SyntaxNode {
        kind: node.kind().to_string(),
        named: node.is_named(),
        text: text[node.byte_range()].to_string(),
        children: (0..node.child_count()).map(|i| copy_node(node.child(i).unwrap(), text)).collect(),
    }
}

/// Calls `weggli::parse`, and copies the tree that comes back from its `root_node`
/// down, with the root's `has_error` beside it.
#[verifier::external_body]
fn read_syntax(text: &str, cxx: bool) -> (r: Syntax)
    ensures
        r == query_syntax(text@, cxx),
{
    let tree = weggli::parse(text, cxx);
    Syntax { has_error: tree.root_node().has_error(), root: copy_node(tree.root_node(), text) }
}

/// Whether a label is one of the two that the engine reads as an instruction: `not` or
/// `strict`, in whichever case. A label with a character outside ASCII counts as one,
/// since its upper case is not told here.
pub open spec fn is_policy_label(label: Seq<char>) -> bool {
    ||| exists|i: int| 0 <= i < label.len() && label[i] as u32 > 127
    ||| {
        &&& label.len() == 3
        &&& (label[0] == 'n' || label[0] == 'N')
        &&& (label[1] == 'o' || label[1] == 'O')
        &&& (label[2] == 't' || label[2] == 'T')
    }
    ||| {
        &&& label.len() == 6
        &&& (label[0] == 's' || label[0] == 'S')
        &&& (label[1] == 't' || label[1] == 'T')
        &&& (label[2] == 'r' || label[2] == 'R')
        &&& (label[3] == 'i' || label[3] == 'I')
        &&& (label[4] == 'c' || label[4] == 'C')
        &&& (label[5] == 't' || label[5] == 'T')
    }
}

/// Tests a label.
pub fn is_policy_label_text(label: &str) -> (b: bool)
    ensures
        b == is_policy_label(label@),
{
    let chars = chars_of(label);
    let mut i: usize = 0;
    while i < chars.len()
        invariant
            i <= chars.len(),
            chars@ == label@,
            forall|j: int| 0 <= j < i ==> chars@[j] as u32 <= 127,
        decreases chars.len() - i,
    {
        if chars[i] as u32 > 127 {
            assert(0 <= i < label@.len() && label@[i as int] as u32 > 127);
            return true;
        }
        i += 1;
    }
    if chars.len() == 3 {
        (chars[0] == 'n' || chars[0] == 'N') && (chars[1] == 'o' || chars[1] == 'O') && (chars[2]
            == 't' || chars[2] == 'T')
    } else if chars.len() == 6 {
        (chars[0] == 's' || chars[0] == 'S') && (chars[1] == 't' || chars[1] == 'T') && (chars[2]
            == 'r' || chars[2] == 'R') && (chars[3] == 'i' || chars[3] == 'I') && (chars[4] == 'c'
            || chars[4] == 'C') && (chars[5] == 't' || chars[5] == 'T')
    } else {
        false
    }
}

/// Whether `i` is the first named child of a node with these children.
pub open spec fn is_first_named(children: Seq<SyntaxNode>, i: int) -> bool {
    &&& 0 <= i < children.len()
    &&& children[i].named
    &&& forall|j: int| 0 <= j < i ==> !(#[trigger] children[j]).named
}

/// Whether the engine writes a statement that is an expression as the expression
/// alone: it has a named child, and the first of them is not the placeholder `_`.
pub open spec fn is_unwrapped(node: SyntaxNode) -> bool {
    &&& node.kind@ == "expression_statement"@
    &&& exists|i: int| is_first_named(node.children@, i) && node.children@[i].text@ != "_"@
}

/// Whether a node is a statement under one of the two labels.
pub open spec fn is_instruction(node: SyntaxNode) -> bool {
    &&& node.kind@ == "labeled_statement"@
    &&& node.children@.len() > 0
    &&& is_policy_label(node.children@[0].text@)
}

/// Whether a node is a block.
pub open spec fn is_block(node: SyntaxNode) -> bool {
    node.kind@ == "compound_statement"@
}

/// Whether every statement at and below `node` stands where the engine can take it:
/// a statement that is written as its expression alone stands directly in a block or
/// directly under one of the two labels, and a statement under one of the two labels
/// stands directly in a block.
pub open spec fn well_placed(node: SyntaxNode, in_block: bool, under_label: bool) -> bool
    decreases node,
{
    &&& is_unwrapped(node) ==> in_block || under_label
    &&& is_instruction(node) ==> in_block
    &&& forall|i: int|
        0 <= i < node.children@.len() ==> well_placed(
            #[trigger] node.children@[i],
            is_block(node),
            is_instruction(node),
        )
}

/// Tests a node for `is_unwrapped`.
fn check_unwrapped(node: &SyntaxNode) -> (b: bool)
    ensures
        b == is_unwrapped(*node),
{
    if !same_text(node.kind.as_str(), "expression_statement") {
        return false;
    }
    let mut i: usize = 0;
    while i < node.children.len()
        invariant
            i <= node.children.len(),
            node.kind@ == "expression_statement"@,
            forall|j: int| 0 <= j < i ==> !(#[trigger] node.children@[j]).named,
        decreases node.children.len() - i,
    {
        if node.children[i].named {
            assert(is_first_named(node.children@, i as int));
            let plain = !same_text(node.children[i].text.as_str(), "_");
            proof {
                if is_unwrapped(*node) {
                    let k = choose|k: int|
                        is_first_named(node.children@, k) && node.children@[k].text@ != "_"@;
                    assert(k == i);
                }
                if plain {
                    assert(is_first_named(node.children@, i as int) && node.children@[i as int].text@
                        != "_"@);
                }
            }
            return plain;
        }
        i += 1;
    }
    false
}

/// Tests a node for `is_instruction`.
fn check_instruction(node: &SyntaxNode) -> (b: bool)
    ensures
        b == is_instruction(*node),
{
    same_text(node.kind.as_str(), "labeled_statement") && node.children.len() > 0
        && is_policy_label_text(node.children[0].text.as_str())
}

/// Tests whether every statement at and below `node` stands where the engine can take
/// it.
pub fn check_placement(node: &SyntaxNode, in_block: bool, under_label: bool) -> (b: bool)
    ensures
        b == well_placed(*node, in_block, under_label),
    decreases node,
{
    let unwrapped = check_unwrapped(node);
    let instruction = check_instruction(node);
    if unwrapped && !(in_block || under_label) {
        return false;
    }
    if instruction && !in_block {
        return false;
    }
    let block = same_text(node.kind.as_str(), "compound_statement");
    let mut i: usize = 0;
    while i < node.children.len()
        invariant
            i <= node.children.len(),
            block == is_block(*node),
            instruction == is_instruction(*node),
            forall|j: int|
                0 <= j < i ==> well_placed(#[trigger] node.children@[j], block, instruction),
        decreases node.children.len() - i,
    {
        if !check_placement(&node.children[i], block, instruction) {
            return false;
        }
        i += 1;
    }
    true
}

/// Whether the engine writes the text of a node of this kind into its query.
pub open spec fn is_quoted_kind(kind: Seq<char>) -> bool {
    ||| kind == "identifier"@
    ||| kind == "type_identifier"@
    ||| kind == "field_identifier"@
    ||| kind == "sized_type_specifier"@
    ||| kind == "primitive_type"@
    ||| kind == "namespace_identifier"@
    ||| kind == "number_literal"@
}

/// Whether a character cannot stand between the double quotes of a query as itself.
pub open spec fn ends_quote(c: char) -> bool {
    c == '"' || c == '\\' || c == '\n'
}

/// Whether a text can be written between double quotes as it stands.
pub open spec fn is_quotable(text: Seq<char>) -> bool {
    forall|i: int| 0 <= i < text.len() ==> !ends_quote(#[trigger] text[i])
}

/// Whether a token of this kind can be written between double quotes: it holds no
/// double quote, or is the double quote alone, which the engine passes over.
pub open spec fn is_plain_token(kind: Seq<char>) -> bool {
    kind == "\""@ || forall|i: int| 0 <= i < kind.len() ==> #[trigger] kind[i] != '"'
}

/// Whether every text at and below `node` that the engine writes into its query can
/// be written there as it stands: the text of a name, a type or a number, and the kind
/// of a node without a name, which is the token itself.
pub open spec fn well_quoted(node: SyntaxNode) -> bool
    decreases node,
{
    &&& is_quoted_kind(node.kind@) ==> is_quotable(node.text@)
    &&& !node.named ==> is_plain_token(node.kind@)
    &&& forall|i: int|
        0 <= i < node.children@.len() ==> well_quoted(#[trigger] node.children@[i])
}

/// Tests a kind for `is_quoted_kind`.
pub fn check_quoted_kind(kind: &str) -> (b: bool)
    ensures
        b == is_quoted_kind(kind@),
{
    same_text(kind, "identifier") || same_text(kind, "type_identifier") || same_text(
        kind,
        "field_identifier",
    ) || same_text(kind, "sized_type_specifier") || same_text(kind, "primitive_type")
        || same_text(kind, "namespace_identifier") || same_text(kind, "number_literal")
}

/// Tests a text for `is_quotable`.
pub fn check_quotable(text: &str) -> (b: bool)
    ensures
        b == is_quotable(text@),
{
    let chars = chars_of(text);
    let mut i: usize = 0;
    while i < chars.len()
        invariant
            i <= chars.len(),
            chars@ == text@,
            forall|j: int| 0 <= j < i ==> !ends_quote(#[trigger] chars@[j]),
        decreases chars.len() - i,
    {
        let c = chars[i];
        if c == '"' || c == '\\' || c == '\n' {
            assert(ends_quote(text@[i as int]));
            return false;
        }
        i += 1;
    }
    true
}

/// Tests a kind for `is_plain_token`.
pub fn check_plain_token(kind: &str) -> (b: bool)
    ensures
        b == is_plain_token(kind@),
{
    if same_text(kind, "\"") {
        return true;
    }
    let chars = chars_of(kind);
    let mut i: usize = 0;
    while i < chars.len()
        invariant
            i <= chars.len(),
            chars@ == kind@,
            kind@ != "\""@,
            forall|j: int| 0 <= j < i ==> #[trigger] chars@[j] != '"',
        decreases chars.len() - i,
    {
        if chars[i] == '"' {
            assert(kind@[i as int] == '"');
            return false;
        }
        i += 1;
    }
    true
}

/// Tests whether every text at and below `node` that the engine writes into its query
/// can be written there as it stands.
pub fn check_quoting(node: &SyntaxNode) -> (b: bool)
    ensures
        b == well_quoted(*node),
    decreases node,
{
    if check_quoted_kind(node.kind.as_str()) && !check_quotable(node.text.as_str()) {
        return false;
    }
    if !node.named && !check_plain_token(node.kind.as_str()) {
        return false;
    }
    let mut i: usize = 0;
    while i < node.children.len()
        invariant
            i <= node.children.len(),
            forall|j: int| 0 <= j < i ==> well_quoted(#[trigger] node.children@[j]),
        decreases node.children.len() - i,
    {
        if !check_quoting(&node.children[i]) {
            return false;
        }
        i += 1;
    }
    true
}

impl Syntax {
    /// Parses a text with the parser of the query engine.
    pub fn parse(text: &str, cxx: bool) -> (r: Syntax)
        ensures
            r == query_syntax(text@, cxx),
    {
        read_syntax(text, cxx)
    }
}

} // verus!
