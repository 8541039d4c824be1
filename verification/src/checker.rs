//! Checkers: one compiled pattern with the identifiers that a source must hold for it
//! to match, and the two policies that thin its matches out.

use crate::constraint::{
    parse_outcome, ConstraintView, RegexConstraints, RegexError, RegexErrorView,
};
use crate::pattern::{
    compiled_pattern, normalized_text, pattern_fault, query_identifiers, query_variables, Pattern,
    PatternError, PatternView,
};
use crate::rule::CheckerLanguage;
use crate::source::ParsedSource;
use crate::structural::{
    all_occur, kept_matches, match_views, query_matches, retain_kept, structural_matches,
    StructuralMatch,
};
use crate::text::{holds, holds_text, occurs_at, occurs_in, texts};
use vstd::prelude::*;
use vstd::utf8::encode_utf8;

verus! {

/// What `memchr::memmem::find` returns: the first byte offset at which `needle` stands
/// in `haystack`, if it stands in it at all.
pub assume_specification[ memchr::memmem::find ](haystack: &[u8], needle: &[u8]) -> (r: Option<
    usize,
>)
    ensures
        match r {
            Some(i) => occurs_at(haystack@, needle@, i as int) && forall|j: int|
                0 <= j < i ==> !occurs_at(haystack@, needle@, j),
            None => !occurs_in(haystack@, needle@),
        },
;

/// Why a check was rejected.
#[derive(Debug)]
pub enum CheckError {
    /// The check's name is empty.
    NoCheckName,
    /// The check has no pattern.
    NoCheckPatterns,
    /// A constraint speaks of this variable, which the pattern does not have.
    InvalidQueryVariable(String),
    /// The pattern was rejected.
    Pattern(PatternError),
    /// The constraints were rejected.
    Regex(RegexError),
}

/// A [`CheckError`] as plain values.
pub enum CheckErrorView {
    NoCheckName,
    NoCheckPatterns,
    InvalidQueryVariable(Seq<char>),
    Pattern(PatternError),
    Regex(RegexErrorView),
}

impl View for CheckError {
    type V = CheckErrorView;

    open spec fn view(&self) -> CheckErrorView {
        match self {
            CheckError::NoCheckName => CheckErrorView::NoCheckName,
            CheckError::NoCheckPatterns => CheckErrorView::NoCheckPatterns,
            CheckError::InvalidQueryVariable(name) => CheckErrorView::InvalidQueryVariable(name@),
            CheckError::Pattern(e) => CheckErrorView::Pattern(*e),
            CheckError::Regex(e) => CheckErrorView::Regex(e@),
        }
    }
}

/// A check as it is written, before anything is compiled.
#[derive(Debug)]
pub struct CheckerDraft {
    pub name: String,
    pub language: CheckerLanguage,
    pub pattern: String,
    /// The constraints, each written `var=regex`.
    pub regexes: Vec<String>,
    pub limit: bool,
    pub unique: bool,
}

/// A [`CheckerDraft`] as plain values.
pub struct DraftView {
    pub name: Seq<char>,
    pub language: CheckerLanguage,
    pub pattern: Seq<char>,
    pub regexes: Seq<Seq<char>>,
    pub limit: bool,
    pub unique: bool,
}

impl View for CheckerDraft {
    type V = DraftView;

    open spec fn view(&self) -> DraftView {
        DraftView {
            name: self.name@,
            language: self.language,
            pattern: self.pattern@,
            regexes: texts(self.regexes@),
            limit: self.limit,
            unique: self.unique,
        }
    }
}

/// A [`Checker`] as plain values.
pub struct CheckerView {
    pub name: Seq<char>,
    pub language: CheckerLanguage,
    pub pattern: PatternView,
    pub identifiers: Seq<Seq<char>>,
    pub limit: bool,
    pub unique: bool,
}

/// Whether `i` is the first constraint on a variable that is not among `variables`.
pub open spec fn is_first_unbound(
    constraints: Seq<ConstraintView>,
    variables: Set<Seq<char>>,
    i: int,
) -> bool {
    &&& 0 <= i < constraints.len()
    &&& !variables.contains(constraints[i].name)
    &&& forall|j: int| 0 <= j < i ==> variables.contains((#[trigger] constraints[j]).name)
}

/// Whether every constraint is on one of `variables`.
pub open spec fn all_bound(constraints: Seq<ConstraintView>, variables: Set<Seq<char>>) -> bool {
    forall|i: int|
        0 <= i < constraints.len() ==> variables.contains((#[trigger] constraints[i]).name)
}

/// What a checker that was compiled holds of itself.
pub open spec fn coherent(c: CheckerView) -> bool {
    &&& c.name.len() > 0
    &&& c.pattern.cxx == c.language.spec_is_cxx()
    &&& c.identifiers == query_identifiers(c.pattern.text, c.pattern.cxx)
    &&& all_bound(c.pattern.constraints, query_variables(c.pattern.text, c.pattern.cxx))
}

/// What compiling a draft gives.
///
/// The steps are taken in this order, and the first that fails decides: the name must
/// not be empty; the constraints must parse; the pattern must compile; every
/// constrained variable must be one of the pattern, and the first that is not is
/// reported.
pub open spec fn compile_outcome(d: DraftView) -> Result<CheckerView, CheckErrorView> {
    let cxx = d.language.spec_is_cxx();
    if d.name.len() == 0 {
        Err(CheckErrorView::NoCheckName)
    } else {
        match parse_outcome(d.regexes) {
            Err(e) => Err(CheckErrorView::Regex(e)),
            Ok(constraints) => match pattern_fault(d.pattern, cxx) {
                Some(e) => Err(CheckErrorView::Pattern(e)),
                None => {
                    let text = normalized_text(d.pattern, cxx);
                    let variables = query_variables(text, cxx);
                    if all_bound(constraints, variables) {
                        Ok(
                            CheckerView {
                                name: d.name,
                                language: d.language,
                                pattern: compiled_pattern(text, cxx, constraints),
                                identifiers: query_identifiers(text, cxx),
                                limit: d.limit,
                                unique: d.unique,
                            },
                        )
                    } else {
                        Err(
                            CheckErrorView::InvalidQueryVariable(
                                constraints[choose|i: int|
                                    is_first_unbound(constraints, variables, i)].name,
                            ),
                        )
                    }
                },
            },
        }
    }
}

/// A compiled check.
#[derive(Debug)]
pub struct Checker {
    name: String,
    language: CheckerLanguage,
    pattern: Pattern,
    identifiers: Vec<String>,
    limit: bool,
    unique: bool,
}

impl View for Checker {
    type V = CheckerView;

    closed spec fn view(&self) -> CheckerView {
        CheckerView {
            name: self.name@,
            language: self.language,
            pattern: self.pattern@,
            identifiers: texts(self.identifiers@),
            limit: self.limit,
            unique: self.unique,
        }
    }
}

/// The first constrained variable that is not among `variables`.
fn find_unbound(constraints: &RegexConstraints, variables: &Vec<String>) -> (r: Option<usize>)
    ensures
        match r {
            Some(i) => is_first_unbound(
                constraints@,
                Set::new(|v: Seq<char>| holds(variables@, v)),
                i as int,
            ),
            None => all_bound(
                constraints@,
                Set::new(|v: Seq<char>| holds(variables@, v)),
            ),
        },
{
    let mut i: usize = 0;
    while i < constraints.len()
        invariant
            i <= constraints@.len(),
            forall|j: int|
                0 <= j < i ==> holds(variables@, (#[trigger] constraints@[j]).name),
        decreases constraints@.len() - i,
    {
        if !holds_text(variables, constraints.get(i).name()) {
            return Some(i);
        }
        i += 1;
    }
    None
}

impl Checker {
    #[verifier::type_invariant]
    spec fn well_formed(self) -> bool {
        coherent(self@)
    }

    /// Compiles a draft.
    pub fn compile(draft: CheckerDraft) -> (r: Result<Checker, CheckError>)
        ensures
            match r {
                Ok(c) => compile_outcome(draft@) == Ok::<_, CheckErrorView>(c@),
                Err(e) => compile_outcome(draft@) == Err::<CheckerView, _>(e@),
            },
    {
        let ghost d = draft@;
        if draft.name.as_str().is_empty() {
            return Err(CheckError::NoCheckName);
        }
        let constraints = match RegexConstraints::parse(&draft.regexes) {
            Ok(constraints) => constraints,
            Err(e) => {
                return Err(CheckError::Regex(e));
            },
        };
        let ghost bound = constraints@;
        let cxx = draft.language.is_cxx();
        let pattern = match Pattern::compile(draft.pattern.as_str(), cxx, constraints) {
            Ok(pattern) => pattern,
            Err(e) => {
                return Err(CheckError::Pattern(e));
            },
        };
        let variables = pattern.variables();
        let ghost known = query_variables(pattern@.text, cxx);
        assert(known =~= Set::new(|v: Seq<char>| holds(variables@, v)));
        match find_unbound(pattern.constraints(), &variables) {
            Some(i) => {
                let name = pattern.constraints().get(i).name().to_owned();
                proof {
                    let k = choose|k: int| is_first_unbound(bound, known, k);
                    assert(k == i);
                }
                Err(CheckError::InvalidQueryVariable(name))
            },
            None => {
                let identifiers = pattern.identifiers();
                Ok(
                    Checker {
                        name: draft.name,
                        language: draft.language,
                        pattern,
                        identifiers,
                        limit: draft.limit,
                        unique: draft.unique,
                    },
                )
            },
        }
    }

    /// The check's name.
    pub fn name(&self) -> (r: &str)
        ensures
            r@ == self@.name,
    {
        self.name.as_str()
    }

    /// The check's name, owned.
    pub fn name_for_match(&self) -> (r: String)
        ensures
            r@ == self@.name,
    {
        self.name.clone()
    }

    /// The language of the pattern.
    pub fn language(&self) -> (r: CheckerLanguage)
        ensures
            r == self@.language,
    {
        self.language
    }

    /// The compiled pattern.
    pub fn pattern(&self) -> (r: &Pattern)
        ensures
            r@ == self@.pattern,
    {
        &self.pattern
    }

    /// The identifiers that a source must hold.
    pub fn identifiers(&self) -> (r: &Vec<String>)
        ensures
            texts(r@) == self@.identifiers,
    {
        &self.identifiers
    }

    /// Whether at most one match is kept for each start offset.
    pub fn limit(&self) -> (r: bool)
        ensures
            r == self@.limit,
    {
        self.limit
    }

    /// Whether a match must capture a text that no earlier match captured.
    pub fn unique(&self) -> (r: bool)
        ensures
            r == self@.unique,
    {
        self.unique
    }

    /// Whether `source` holds every identifier of the check.
    pub open spec fn spec_can_match(&self, source: Seq<char>) -> bool {
        all_occur(self@.identifiers, source)
    }

    /// Whether the check can match in `source` at all: whether every identifier of its
    /// pattern stands somewhere in the text. A source for which this fails has no
    /// structural match; one for which it holds may still have none.
    pub fn can_match(&self, source: &str) -> (b: bool)
        ensures
            b == self.spec_can_match(source@),
    {
        let hay = source.as_bytes();
        let mut i: usize = 0;
        while i < self.identifiers.len()
            invariant
                i <= self.identifiers.len(),
                hay@ == encode_utf8(source@),
                forall|j: int|
                    0 <= j < i ==> occurs_in(
                        encode_utf8(source@),
                        encode_utf8(#[trigger] self@.identifiers[j]),
                    ),
            decreases self.identifiers.len() - i,
        {
            let needle = self.identifiers[i].as_str().as_bytes();
            assert(needle@ == encode_utf8(self@.identifiers[i as int]));
            match memchr::memmem::find(hay, needle) {
                Some(at) => {
                    assert(occurs_at(hay@, needle@, at as int));
                },
                None => {
                    return false;
                },
            }
            i += 1;
        }
        true
    }

    /// The structural matches of the check in a parsed source, as the engine gives
    /// them, before the policies are applied.
    ///
    /// Where there is one, `can_match` holds of the source.
    pub fn structural_matches(&self, source: &ParsedSource) -> (r: Vec<StructuralMatch>)
        ensures
            match_views(r@) == query_matches(self@.pattern, source@.text, source@.cxx),
            r@.len() > 0 ==> self.spec_can_match(source@.text),
    {
        proof {
            use_type_invariant(self);
        }
        structural_matches(&self.pattern, source)
    }

    /// The matches of the check in a parsed source that its policies keep, in the
    /// engine's order.
    ///
    /// Where one is kept, `can_match` holds of the source.
    pub fn check_match(&self, source: &ParsedSource) -> (r: Vec<StructuralMatch>)
        ensures
            match_views(r@) == kept_matches(
                self@.unique,
                self@.limit,
                query_matches(self@.pattern, source@.text, source@.cxx),
            ),
            r@.len() > 0 ==> self.spec_can_match(source@.text),
    {
        let found = self.structural_matches(source);
        if found.len() == 0 {
            return found;
        }
        retain_kept(self.unique, self.limit, found)
    }
}

} // verus!
