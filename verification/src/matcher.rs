//! Scanning: a rule set with one parser for each language, and what a scan of a source
//! yields.
//!
//! A scan first lists the checks that can match in the source at all. Where there is
//! none, or the source does not parse, it yields nothing. Else each listed check is
//! run against the one tree of the source, and what its policies keep is recorded with
//! the rule and the check that it came from.

use crate::checker::Checker;
use crate::error::{RuleError, RuleErrorView};
use crate::rule::{
    checker_views, file_views, load_outcome, text_outcome, Rule, RuleFile, RuleView,
};
use crate::ruleset::{
    directory_outcome, names_check, pair_views, set_outcome, viable, EntryView, RuleSet,
};
use crate::source::{grammar_fault, share, source_parses, SourceParser};
use crate::structural::{
    kept_matches, match_views, query_matches, MatchView, StructuralMatch,
};
use std::sync::Arc;
use vstd::prelude::*;

verus! {

/// Why a matcher was not made.
#[derive(Debug)]
pub enum RuleMatcherError {
    /// A parser could not be made.
    Parser(tree_sitter::LanguageError),
    /// The rules were not loaded.
    Rules(RuleError),
}

/// A [`RuleMatcherError`] as values.
pub enum MatcherErrorView {
    Parser(tree_sitter::LanguageError),
    Rules(RuleErrorView),
}

impl View for RuleMatcherError {
    type V = MatcherErrorView;

    open spec fn view(&self) -> MatcherErrorView {
        match self {
            RuleMatcherError::Parser(e) => MatcherErrorView::Parser(*e),
            RuleMatcherError::Rules(e) => MatcherErrorView::Rules(e@),
        }
    }
}

/// A [`RuleMatch`] as plain values.
pub struct RecordView {
    pub rule: RuleView,
    pub rule_id: int,
    pub checker_id: int,
    pub source: Seq<char>,
    pub result: MatchView,
}

/// One match of one check in one source.
#[derive(Debug)]
pub struct RuleMatch {
    rule: Arc<Rule>,
    rule_id: usize,
    checker_id: usize,
    source: Arc<String>,
    result: StructuralMatch,
}

impl View for RuleMatch {
    type V = RecordView;

    closed spec fn view(&self) -> RecordView {
        RecordView {
            rule: self.rule@,
            rule_id: self.rule_id as int,
            checker_id: self.checker_id as int,
            source: self.source@,
            result: self.result@,
        }
    }
}

/// The views of a list of records.
pub open spec fn record_views(records: Seq<RuleMatch>) -> Seq<RecordView> {
    records.map_values(|r: RuleMatch| r@)
}

/// The matches of one check, each recorded with where it came from.
pub open spec fn recorded(
    rule: RuleView,
    pair: (int, int),
    source: Seq<char>,
    matches: Seq<MatchView>,
) -> Seq<RecordView> {
    matches.map_values(
        |m: MatchView| RecordView { rule, rule_id: pair.0, checker_id: pair.1, source, result: m },
    )
}

/// What the check that `pair` names yields in a source that parsed.
pub open spec fn yield_of(rules: Seq<EntryView>, pair: (int, int), source: Seq<char>, cxx: bool) -> Seq<
    RecordView,
> {
    let rule = rules[pair.0].rule;
    let checker = rule.checks[pair.1];
    recorded(
        rule,
        pair,
        source,
        kept_matches(checker.unique, checker.limit, query_matches(checker.pattern, source, cxx)),
    )
}

/// What the first `n` of the listed checks yield, one after the other.
pub open spec fn yields(
    rules: Seq<EntryView>,
    pairs: Seq<(int, int)>,
    source: Seq<char>,
    cxx: bool,
    n: int,
) -> Seq<RecordView>
    decreases n,
{
    if n <= 0 {
        Seq::empty()
    } else {
        yields(rules, pairs, source, cxx, n - 1) + yield_of(rules, pairs[n - 1], source, cxx)
    }
}

/// What a scan of `source` yields.
pub open spec fn scan_outcome(rules: Seq<EntryView>, source: Seq<char>, cxx: bool) -> Seq<
    RecordView,
> {
    let pairs = viable(rules, source, rules.len() as int);
    if pairs.len() == 0 || !source_parses(source, cxx) {
        Seq::empty()
    } else {
        yields(rules, pairs, source, cxx, pairs.len() as int)
    }
}

/// What making a matcher gives, from what loading its rules gave: the parser for C is
/// made first, and the fault of the first parser that is not made is given back.
pub open spec fn matcher_outcome(rules: Result<Seq<EntryView>, RuleErrorView>) -> Result<
    Seq<EntryView>,
    MatcherErrorView,
> {
    match rules {
        Err(e) => Err(MatcherErrorView::Rules(e)),
        Ok(set) => match (grammar_fault(false), grammar_fault(true)) {
            (Some(e), _) => Err(MatcherErrorView::Parser(e)),
            (None, Some(e)) => Err(MatcherErrorView::Parser(e)),
            (None, None) => Ok(set),
        },
    }
}

/// Two scans of one source, one after the other, yield the same records in the same
/// order: the first leaves the rule set as it was, and what a scan yields is told by the
/// rule set, the source and the language alone.
pub proof fn lemma_scan_is_repeatable(
    before: RuleMatcher,
    between: RuleMatcher,
    source: Seq<char>,
    cxx: bool,
    first: Seq<RecordView>,
    second: Seq<RecordView>,
)
    requires
        between@ == before@,
        first == scan_outcome(before@, source, cxx),
        second == scan_outcome(between@, source, cxx),
    ensures
        second == first,
{
}

/// A source that does not parse yields nothing.
pub proof fn lemma_unparsed_source_yields_nothing(
    rules: Seq<EntryView>,
    source: Seq<char>,
    cxx: bool,
)
    requires
        !source_parses(source, cxx),
    ensures
        scan_outcome(rules, source, cxx) == Seq::<RecordView>::empty(),
{
}

impl RuleMatch {
    #[verifier::type_invariant]
    spec fn well_formed(self) -> bool {
        self.checker_id < self.rule@.checks.len()
    }

    /// The record that the engine made of the structural match.
    pub open spec fn engine_record(&self) -> weggli::result::QueryResult {
        self@.result.record
    }

    /// The rule of the check that matched.
    pub fn rule(&self) -> (r: &Rule)
        ensures
            r@ == self@.rule,
    {
        &self.rule
    }

    /// The place of the rule in the rule set.
    pub fn rule_id(&self) -> (r: usize)
        ensures
            r == self@.rule_id,
    {
        self.rule_id
    }

    /// The place of the check in its rule.
    pub fn checker_id(&self) -> (r: usize)
        ensures
            r == self@.checker_id,
            r < self@.rule.checks.len(),
    {
        proof {
            use_type_invariant(self);
        }
        self.checker_id
    }

    /// The check that matched.
    pub fn checker(&self) -> (r: &Checker)
        ensures
            r@ == self@.rule.checks[self@.checker_id],
    {
        proof {
            use_type_invariant(self);
        }
        let checks = self.rule.checks();
        assert(checker_views(checks@)[self.checker_id as int]
            == checks@[self.checker_id as int]@);
        &checks[self.checker_id]
    }

    /// The source that was scanned, shared.
    pub fn source(&self) -> (r: Arc<String>)
        ensures
            r@ == self@.source,
    {
        share(&self.source)
    }

    /// The source that was scanned.
    pub fn source_ref(&self) -> (r: &str)
        ensures
            r@ == self@.source,
    {
        self.source.as_str()
    }

    /// The structural match.
    pub fn structural(&self) -> (r: &StructuralMatch)
        ensures
            r@ == self@.result,
            r.engine_record() == self.engine_record(),
    {
        &self.result
    }

    /// The engine's own record of the match.
    pub fn result(&self) -> (r: &weggli::result::QueryResult)
        ensures
            *r == self.engine_record(),
    {
        self.result.result()
    }

    /// Gives the engine's record of the match up.
    pub fn into_result(self) -> (r: Arc<weggli::result::QueryResult>)
        ensures
            *r == self.engine_record(),
    {
        self.result.into_result()
    }
}

/// Records the matches of one check with where they came from.
fn record(
    rule: &Arc<Rule>,
    rule_id: usize,
    checker_id: usize,
    source: &Arc<String>,
    found: Vec<StructuralMatch>,
) -> (r: Vec<RuleMatch>)
    requires
        checker_id < rule@.checks.len(),
    ensures
        record_views(r@) == recorded(
            rule@,
            (rule_id as int, checker_id as int),
            source@,
            match_views(found@),
        ),
{
    let ghost wanted = recorded(
        rule@,
        (rule_id as int, checker_id as int),
        source@,
        match_views(found@),
    );
    let mut records: Vec<RuleMatch> = Vec::new();
    let mut n: usize = 0;
    let total = found.len();
    for m in it: found.into_iter()
        invariant
            n == it.index(),
            total == found@.len(),
            it.seq() == found@,
            checker_id < rule@.checks.len(),
            records@.len() == n,
            forall|j: int| 0 <= j < n ==> (#[trigger] records@[j])@ == wanted[j],
            wanted == recorded(
                rule@,
                (rule_id as int, checker_id as int),
                source@,
                match_views(found@),
            ),
    {
        assert(m == found@[n as int]);
        records.push(
            RuleMatch { rule: share(rule), rule_id, checker_id, source: share(source), result: m },
        );
        n += 1;
    }
    assert(record_views(records@) =~= wanted);
    records
}

/// A rule set with the parsers that scans use.
pub struct RuleMatcher {
    rules: RuleSet,
    c_parser: SourceParser,
    cxx_parser: SourceParser,
}

impl View for RuleMatcher {
    type V = Seq<EntryView>;

    closed spec fn view(&self) -> Seq<EntryView> {
        self.rules@
    }
}

/// What a result that holds a matcher says, as plain values.
pub open spec fn made(r: Result<RuleMatcher, RuleMatcherError>) -> Result<
    Seq<EntryView>,
    MatcherErrorView,
> {
    match r {
        Ok(matcher) => Ok(matcher@),
        Err(e) => Err(e@),
    }
}

impl RuleMatcher {
    /// Whether each of the two parsers is the one of its language. Every matcher that
    /// was made is well formed, and a scan leaves it so.
    pub closed spec fn well_formed(&self) -> bool {
        !self.c_parser.spec_is_cxx() && self.cxx_parser.spec_is_cxx()
    }

    /// Makes a matcher for a rule set, with a parser for C and one for C++.
    pub fn new(rules: RuleSet) -> (r: Result<RuleMatcher, RuleMatcherError>)
        ensures
            made(r) == matcher_outcome(Ok(rules@)),
            r matches Ok(matcher) ==> matcher.well_formed(),
    {
        let c_parser = match SourceParser::new(false) {
            Ok(parser) => parser,
            Err(e) => {
                return Err(RuleMatcherError::Parser(e));
            },
        };
        let cxx_parser = match SourceParser::new(true) {
            Ok(parser) => parser,
            Err(e) => {
                return Err(RuleMatcherError::Parser(e));
            },
        };
        Ok(RuleMatcher { rules, c_parser, cxx_parser })
    }

    /// Makes a matcher for what loading a rule set gave.
    fn over(rules: Result<RuleSet, RuleError>) -> (r: Result<RuleMatcher, RuleMatcherError>)
        ensures
            made(r) == matcher_outcome(set_outcome(rules)),
            r matches Ok(matcher) ==> matcher.well_formed(),
    {
        match rules {
            Ok(rules) => RuleMatcher::new(rules),
            Err(e) => Err(RuleMatcherError::Rules(e)),
        }
    }

    /// Makes a matcher for the rule that a file holds.
    pub fn from_file(file: &RuleFile) -> (r: Result<RuleMatcher, RuleMatcherError>)
        ensures
            made(r) == matcher_outcome(
                match load_outcome(file@) {
                    Ok(loaded) => Ok(seq![EntryView { key: file@.path, rule: loaded }]),
                    Err(e) => Err(e),
                },
            ),
            r matches Ok(matcher) ==> matcher.well_formed(),
    {
        RuleMatcher::over(RuleSet::from_file(file))
    }

    /// Makes a matcher for the rule that `rule` writes.
    pub fn from_str(rule: &str) -> (r: Result<RuleMatcher, RuleMatcherError>)
        ensures
            made(r) == matcher_outcome(
                match text_outcome(rule@) {
                    Ok(loaded) => Ok(seq![EntryView { key: "default"@, rule: loaded }]),
                    Err(e) => Err(e),
                },
            ),
            r matches Ok(matcher) ==> matcher.well_formed(),
    {
        RuleMatcher::over(RuleSet::from_str(rule))
    }

    /// Makes a matcher for the rules that the files found under a directory hold,
    /// passing over the files that hold none.
    pub fn from_directory(files: &Vec<RuleFile>) -> (r: Result<RuleMatcher, RuleMatcherError>)
        ensures
            made(r) == matcher_outcome(directory_outcome(file_views(files@), true)),
            r matches Ok(matcher) ==> matcher.well_formed(),
    {
        RuleMatcher::from_directory_with(files, true)
    }

    /// Makes a matcher for the rules that the files found under a directory hold.
    pub fn from_directory_with(files: &Vec<RuleFile>, ignore_errors: bool) -> (r: Result<
        RuleMatcher,
        RuleMatcherError,
    >)
        ensures
            made(r) == matcher_outcome(directory_outcome(file_views(files@), ignore_errors)),
            r matches Ok(matcher) ==> matcher.well_formed(),
    {
        RuleMatcher::over(RuleSet::from_directory(files, ignore_errors))
    }

    /// The rule set.
    pub fn rules(&self) -> (r: &RuleSet)
        ensures
            r@ == self@,
    {
        &self.rules
    }

    /// Scans a source as C++.
    pub fn matches(&mut self, source: &str) -> (r: Result<Vec<RuleMatch>, RuleMatcherError>)
        requires
            old(self).well_formed(),
        ensures
            final(self).well_formed(),
            final(self)@ == old(self)@,
            r matches Ok(records) && record_views(records@) == scan_outcome(
                old(self)@,
                source@,
                true,
            ),
    {
        self.matches_with(source, true)
    }

    /// Scans a source, as C++ where `is_cxx` is set and as C where it is not.
    ///
    /// The rule set is left as it was, and a scan does not fail: a source that does not
    /// parse yields nothing. Each record holds the structural match as the check gave it,
    /// with the engine's own record of it.
    pub fn matches_with(&mut self, source: &str, is_cxx: bool) -> (r: Result<
        Vec<RuleMatch>,
        RuleMatcherError,
    >)
        requires
            old(self).well_formed(),
        ensures
            final(self).well_formed(),
            final(self)@ == old(self)@,
            r matches Ok(records) && record_views(records@) == scan_outcome(
                old(self)@,
                source@,
                is_cxx,
            ),
    {
        let ghost rules = self@;
        let mut records: Vec<RuleMatch> = Vec::new();
        let pairs = self.rules.viable_checkers(source);
        let ghost listed = pair_views(pairs@);
        if pairs.len() == 0 {
            assert(record_views(records@) =~= Seq::<RecordView>::empty());
            return Ok(records);
        }
        let parsed = if is_cxx {
            self.cxx_parser.parse(source)
        } else {
            self.c_parser.parse(source)
        };
        let parsed = match parsed {
            Some(parsed) => parsed,
            None => {
                assert(record_views(records@) =~= Seq::<RecordView>::empty());
                return Ok(records);
            },
        };
        let shared = parsed.shared_text();
        let mut k: usize = 0;
        proof {
            assert(record_views(records@) =~= yields(rules, listed, source@, is_cxx, 0));
        }
        while k < pairs.len()
            invariant
                k <= pairs.len(),
                self@ == rules,
                self.well_formed(),
                listed == pair_views(pairs@),
                forall|n: int| 0 <= n < pairs@.len() ==> names_check(rules, #[trigger] listed[n]),
                parsed@.text == source@,
                parsed@.cxx == is_cxx,
                shared@ == source@,
                record_views(records@) == yields(rules, listed, source@, is_cxx, k as int),
            decreases pairs.len() - k,
        {
            let (i, j) = pairs[k];
            assert(listed[k as int] == (i as int, j as int));
            assert(names_check(rules, listed[k as int]));
            let rule = self.rules.shared_rule(i);
            let checks = self.rules.rule(i).checks();
            assert(checker_views(checks@)[j as int] == checks@[j as int]@);
            let found = checks[j].check_match(&parsed);
            let mut more = record(&rule, i, j, &shared, found);
            let ghost before = record_views(records@);
            let ghost added = record_views(more@);
            records.append(&mut more);
            proof {
                assert(record_views(records@) =~= before + added);
                assert(added == yield_of(rules, listed[k as int], source@, is_cxx));
            }
            k += 1;
        }
        Ok(records)
    }
}

} // verus!
