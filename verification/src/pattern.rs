//! Structural patterns: what the query engine's parser makes of a pattern text, the
//! repairs that are tried on it, and its compilation into a query.
//!
//! A pattern is compiled once. The text is parsed as source of its language; where that
//! fails a `;` is tried at its end, and where the text is then not rooted in a supported
//! construct it is tried inside braces. What is left must parse without error, have at
//! most one named construct at its top, start with a supported construct, have each of
//! its statements where the engine can take it, and have no name, type or number that
//! the engine cannot write into its query.

use crate::constraint::{ConstraintView, RegexConstraints};
use crate::syntax::{
    check_placement, check_quoting, query_syntax, well_placed, well_quoted, Syntax, SyntaxNode,
};
use crate::text::{holds, same_text, texts};
use vstd::prelude::*;
use vstd::string::{StrSliceExecFns, StringExecFns};

verus! {

/// A compiled query of the `weggli` crate, carried through without inspection.
#[verifier::external_type_specification]
#[verifier::external_body]
pub struct ExQueryTree(weggli::query::QueryTree);

/// What the parser reads at the top of a text.
#[derive(Debug)]
pub struct PatternShape {
    /// Whether the syntax tree holds an error.
    pub has_error: bool,
    /// The number of named constructs directly under the root.
    pub named_roots: usize,
    /// The kind of the first construct under the root, if the root has any.
    pub first_kind: Option<String>,
}

/// A [`PatternShape`] as plain values.
pub struct ShapeView {
    pub has_error: bool,
    pub named_roots: nat,
    pub first_kind: Option<Seq<char>>,
}

impl View for PatternShape {
    type V = ShapeView;

    open spec fn view(&self) -> ShapeView {
        ShapeView {
            has_error: self.has_error,
            named_roots: self.named_roots as nat,
            first_kind: match self.first_kind {
                Some(kind) => Some(kind@),
                None => None,
            },
        }
    }
}

/// The number of named nodes among the first `n` of `children`.
pub open spec fn count_named(children: Seq<SyntaxNode>, n: int) -> nat
    decreases n,
{
    if n <= 0 {
        0
    } else if children[n - 1].named {
        count_named(children, n - 1) + 1
    } else {
        count_named(children, n - 1)
    }
}

/// What stands at the top of a syntax tree.
pub open spec fn shape_view(syntax: Syntax) -> ShapeView {
    let children = syntax.root.children@;
    ShapeView {
        has_error: syntax.has_error,
        named_roots: count_named(children, children.len() as int),
        first_kind: if children.len() > 0 {
            Some(children[0].kind@)
        } else {
            None
        },
    }
}

/// What the parser of the engine reads at the top of `text`.
pub open spec fn query_shape(text: Seq<char>, cxx: bool) -> ShapeView {
    shape_view(query_syntax(text, cxx))
}

/// The variables of the query that `weggli` builds from `text`.
pub uninterp spec fn query_variables(text: Seq<char>, cxx: bool) -> Set<Seq<char>>;

/// The identifiers that the query built from `text` asks for, in the order in which
/// `weggli` lists them.
pub uninterp spec fn query_identifiers(text: Seq<char>, cxx: bool) -> Seq<Seq<char>>;

/// Reads what stands at the top of a syntax tree.
pub fn shape_of(syntax: &Syntax) -> (r: PatternShape)
    ensures
        r@ == shape_view(*syntax),
{
    let children = &syntax.root.children;
    let mut named_roots: usize = 0;
    let mut i: usize = 0;
    while i < children.len()
        invariant
            i <= children.len(),
            named_roots <= i,
            named_roots == count_named(children@, i as int),
        decreases children.len() - i,
    {
        if children[i].named {
            named_roots += 1;
        }
        i += 1;
    }
    let first_kind = if children.len() > 0 {
        Some(children[0].kind.clone())
    } else {
        None
    };
    PatternShape { has_error: syntax.has_error, named_roots, first_kind }
}

/// Why a pattern was rejected.
#[derive(Debug, Clone, Copy, PartialEq, Eq, Structural)]
pub enum PatternError {
    /// The pattern does not parse, also with the repairs tried.
    Syntax,
    /// The pattern has more than one named construct at its top.
    MultipleRoots,
    /// The pattern is not rooted in a block, a function definition, or a struct, enum,
    /// union or class specifier.
    UnsupportedRoot,
    /// A statement of the pattern stands where the engine cannot take it: a statement
    /// that is an expression, or one under the label `not` or `strict`, elsewhere than
    /// directly in a block.
    MisplacedStatement,
    /// The engine cannot write a text of the pattern into its query: a name, a type or
    /// a number that holds a double quote, a backslash or a line break, or a token with
    /// a double quote in it, as the opening of a prefixed string literal.
    UnquotableText,
}

/// Whether a pattern may be rooted in a construct of this kind.
pub open spec fn supported_root(kind: Seq<char>) -> bool {
    ||| kind == "compound_statement"@
    ||| kind == "function_definition"@
    ||| kind == "struct_specifier"@
    ||| kind == "enum_specifier"@
    ||| kind == "union_specifier"@
    ||| kind == "class_specifier"@
}

/// Tests a kind against the supported roots.
pub fn is_supported_root(kind: &str) -> (b: bool)
    ensures
        b == supported_root(kind@),
{
    same_text(kind, "compound_statement") || same_text(kind, "function_definition")
        || same_text(kind, "struct_specifier") || same_text(kind, "enum_specifier")
        || same_text(kind, "union_specifier") || same_text(kind, "class_specifier")
}

/// The fault of a text with this shape, if it has one.
pub open spec fn shape_fault(shape: ShapeView) -> Option<PatternError> {
    if shape.has_error {
        Some(PatternError::Syntax)
    } else if shape.named_roots > 1 {
        Some(PatternError::MultipleRoots)
    } else if !(shape.first_kind matches Some(kind) && supported_root(kind)) {
        Some(PatternError::UnsupportedRoot)
    } else {
        None
    }
}

/// Finds the fault of a shape.
pub fn check_shape(shape: &PatternShape) -> (r: Option<PatternError>)
    ensures
        r == shape_fault(shape@),
{
    if shape.has_error {
        return Some(PatternError::Syntax);
    }
    if shape.named_roots > 1 {
        return Some(PatternError::MultipleRoots);
    }
    match &shape.first_kind {
        Some(kind) => {
            if is_supported_root(kind.as_str()) {
                None
            } else {
                Some(PatternError::UnsupportedRoot)
            }
        },
        None => Some(PatternError::UnsupportedRoot),
    }
}

/// The fault of a text with this syntax tree, if it has one.
pub open spec fn syntax_fault(syntax: Syntax) -> Option<PatternError> {
    match shape_fault(shape_view(syntax)) {
        Some(e) => Some(e),
        None => if !well_placed(syntax.root, false, false) {
            Some(PatternError::MisplacedStatement)
        } else if !well_quoted(syntax.root) {
            Some(PatternError::UnquotableText)
        } else {
            None
        },
    }
}

/// Finds the fault of a syntax tree.
pub fn check_syntax(syntax: &Syntax) -> (r: Option<PatternError>)
    ensures
        r == syntax_fault(*syntax),
{
    match check_shape(&shape_of(syntax)) {
        Some(e) => Some(e),
        None => if !check_placement(&syntax.root, false, false) {
            Some(PatternError::MisplacedStatement)
        } else if !check_quoting(&syntax.root) {
            Some(PatternError::UnquotableText)
        } else {
            None
        },
    }
}

/// The text after the first repair: a `;` at its end, where the text does not parse,
/// does not end in one, and parses with it.
pub open spec fn with_terminator(text: Seq<char>, cxx: bool) -> Seq<char> {
    if query_shape(text, cxx).has_error && !(text.len() > 0 && text.last() == ';')
        && !query_shape(text.push(';'), cxx).has_error {
        text.push(';')
    } else {
        text
    }
}

/// The text after the second repair: braces around it, where it parses, starts with a
/// construct that is no supported root, and parses inside braces.
pub open spec fn with_braces(text: Seq<char>, cxx: bool) -> Seq<char> {
    let shape = query_shape(text, cxx);
    let braced = seq!['{'] + text + seq!['}'];
    if !shape.has_error && (shape.first_kind matches Some(kind) && !supported_root(kind))
        && !query_shape(braced, cxx).has_error {
        braced
    } else {
        text
    }
}

/// The text that is compiled for a pattern written as `text`.
pub open spec fn normalized_text(text: Seq<char>, cxx: bool) -> Seq<char> {
    with_braces(with_terminator(text, cxx), cxx)
}

/// The fault of a pattern written as `text`, if it has one.
pub open spec fn pattern_fault(text: Seq<char>, cxx: bool) -> Option<PatternError> {
    syntax_fault(query_syntax(normalized_text(text, cxx), cxx))
}

/// Whether `text` ends in a `;`.
fn ends_with_terminator(text: &str) -> (b: bool)
    ensures
        b == (text@.len() > 0 && text@.last() == ';'),
{
    let n = text.unicode_len();
    n > 0 && text.get_char(n - 1) == ';'
}

/// Applies the two repairs to a pattern text and reads the syntax of what is left.
pub fn normalize(text: &str, cxx: bool) -> (r: (String, Syntax))
    ensures
        r.0@ == normalized_text(text@, cxx),
        r.1 == query_syntax(r.0@, cxx),
{
    let mut current = text.to_owned();
    let mut syntax = Syntax::parse(text, cxx);
    if syntax.has_error && !ends_with_terminator(text) {
        let mut fixed = text.to_owned();
        proof {
            reveal_strlit(";");
        }
        fixed.append(";");
        assert(fixed@ =~= text@.push(';'));
        let fixed_syntax = Syntax::parse(fixed.as_str(), cxx);
        if !fixed_syntax.has_error {
            current = fixed;
            syntax = fixed_syntax;
        }
    }
    assert(current@ == with_terminator(text@, cxx));
    let needs_braces = !syntax.has_error && syntax.root.children.len() > 0 && !is_supported_root(
        syntax.root.children[0].kind.as_str(),
    );
    if needs_braces {
        proof {
            reveal_strlit("{");
            reveal_strlit("}");
        }
        let mut braced = String::from_str("{");
        braced.append(current.as_str());
        braced.append("}");
        assert(braced@ =~= seq!['{'] + current@ + seq!['}']);
        let braced_syntax = Syntax::parse(braced.as_str(), cxx);
        if !braced_syntax.has_error {
            current = braced;
            syntax = braced_syntax;
        }
    }
    (current, syntax)
}

/// A compiled pattern as values: the text that was compiled, its language, the
/// constraints on its variables, and the query that the engine built.
pub struct PatternView {
    pub text: Seq<char>,
    pub cxx: bool,
    pub constraints: Seq<ConstraintView>,
    pub tree: weggli::query::QueryTree,
}

/// The query that `weggli` builds from a text that has no fault, with these
/// constraints on its variables.
pub uninterp spec fn built_query(
    text: Seq<char>,
    cxx: bool,
    constraints: Seq<ConstraintView>,
) -> weggli::query::QueryTree;

/// The pattern that compiling a text that has no fault gives.
pub open spec fn compiled_pattern(
    text: Seq<char>,
    cxx: bool,
    constraints: Seq<ConstraintView>,
) -> PatternView {
    PatternView { text, cxx, constraints, tree: built_query(text, cxx, constraints) }
}

/// A compiled pattern: the query of the engine, beside the values it was built from.
#[derive(Debug)]
pub struct Pattern {
    text: String,
    cxx: bool,
    constraints: RegexConstraints,
    tree: weggli::query::QueryTree,
}

impl View for Pattern {
    type V = PatternView;

    closed spec fn view(&self) -> PatternView {
        PatternView {
            text: self.text@,
            cxx: self.cxx,
            constraints: self.constraints@,
            tree: self.tree,
        }
    }
}

/// Parses `text` with `weggli::parse`, steps to the first construct under the root,
/// and calls `weggli::builder::build_query_tree` there with the constraints as a
/// `weggli::RegexMap`. The query that comes back is told by the text, the language and
/// the constraints alone, and is what `built_query` names.
///
/// The engine asks for a text that parses and is rooted in one supported construct. It
/// ends the process where the parser library refuses the query that it wrote. It writes
/// such a query for a statement that it replaces by its expression, or leaves out, under
/// a construct that needs a statement there; for a name, a type or a number whose
/// text, which it puts between double quotes as it stands, holds a double quote, a
/// backslash or a line break; and for a token with a double quote in it. `requires`
/// leaves all of these out.
#[verifier::external_body]
fn build_query(text: &str, cxx: bool, constraints: &RegexConstraints) -> (tree:
    weggli::query::QueryTree)
    requires
        syntax_fault(query_syntax(text@, cxx)) is None,
    ensures
        tree == built_query(text@, cxx, constraints@),
{
    let parsed = weggli::parse(text, cxx);
    let mut cursor = parsed.walk();
    cursor.goto_first_child();
    let map = (0..constraints.len()).map(|i| constraints.get(i)).map(
        |c| (c.name().to_string(), (c.negate(), c.regex().clone())),
    ).collect();
    weggli::builder::build_query_tree(text, &mut cursor, cxx, Some(weggli::RegexMap::new(map)))
}

/// Calls `QueryTree::variables` on the query of `pattern`, which is the one built from
/// its text: the names of the variables of the query, each once, in no order that could
/// be stated.
#[verifier::external_body]
fn read_variables(pattern: &Pattern) -> (r: Vec<String>)
    requires
        pattern.well_formed(),
    ensures
        forall|v: Seq<char>| holds(r@, v) <==> query_variables(pattern@.text, pattern@.cxx).contains(v),
{
    pattern.tree.variables().into_iter().collect()
}

/// Calls `QueryTree::identifiers` on the query of `pattern`, which is the one built
/// from its text.
#[verifier::external_body]
fn read_identifiers(pattern: &Pattern) -> (r: Vec<String>)
    requires
        pattern.well_formed(),
    ensures
        texts(r@) == query_identifiers(pattern@.text, pattern@.cxx),
{
    pattern.tree.identifiers()
}

impl Pattern {
    /// Whether the text of the pattern has no fault and its query is the one that the
    /// engine builds from the text. Every pattern is well formed.
    #[verifier::type_invariant]
    pub open spec fn well_formed(self) -> bool {
        &&& syntax_fault(query_syntax(self@.text, self@.cxx)) is None
        &&& self@.tree == built_query(self@.text, self@.cxx, self@.constraints)
    }

    /// Compiles a pattern written as `text`.
    ///
    /// The text is repaired as [`normalized_text`] says, and compiled unless it then
    /// has a fault, which is given back.
    pub fn compile(text: &str, cxx: bool, constraints: RegexConstraints) -> (r: Result<
        Pattern,
        PatternError,
    >)
        ensures
            match r {
                Ok(p) => pattern_fault(text@, cxx) is None && p@ == compiled_pattern(
                    normalized_text(text@, cxx),
                    cxx,
                    constraints@,
                ),
                Err(e) => pattern_fault(text@, cxx) == Some(e),
            },
    {
        let (normalized, syntax) = normalize(text, cxx);
        match check_syntax(&syntax) {
            Some(e) => Err(e),
            None => {
                let tree = build_query(normalized.as_str(), cxx, &constraints);
                Ok(Pattern { text: normalized, cxx, constraints, tree })
            },
        }
    }

    /// The text that was compiled.
    pub fn text(&self) -> (r: &str)
        ensures
            r@ == self@.text,
    {
        self.text.as_str()
    }

    /// Whether the pattern is one of C++.
    pub fn is_cxx(&self) -> (r: bool)
        ensures
            r == self@.cxx,
    {
        self.cxx
    }

    /// The constraints on the pattern's variables.
    pub fn constraints(&self) -> (r: &RegexConstraints)
        ensures
            r@ == self@.constraints,
    {
        &self.constraints
    }

    /// The query that the engine built when the pattern was compiled.
    pub open spec fn compiled(&self) -> weggli::query::QueryTree {
        self@.tree
    }

    /// The query of the engine.
    pub fn query(&self) -> (r: &weggli::query::QueryTree)
        ensures
            *r == self.compiled(),
    {
        &self.tree
    }

    /// The variables of the pattern, each once.
    pub fn variables(&self) -> (r: Vec<String>)
        ensures
            forall|v: Seq<char>| holds(r@, v) <==> query_variables(self@.text, self@.cxx).contains(v),
    {
        proof {
            use_type_invariant(self);
        }
        read_variables(self)
    }

    /// The identifiers that a source must hold for the pattern to match in it.
    pub fn identifiers(&self) -> (r: Vec<String>)
        ensures
            texts(r@) == query_identifiers(self@.text, self@.cxx),
    {
        proof {
            use_type_invariant(self);
        }
        read_identifiers(self)
    }
}

} // verus!
