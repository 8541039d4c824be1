//! The rule model: severities, languages, and rules with their checks.
//!
//! A rule is built from a draft: its identifier must not be empty, it must have a
//! check, and its checks are compiled in their order. A check whose name is empty, or
//! is that of an earlier check, or which does not compile, ends the building with its
//! fault.

pub use crate::checker::{CheckError, Checker};
pub use crate::constraint::RegexError;
pub use crate::error::RuleError;
pub use crate::ruleset::RuleSet;

use crate::checker::{compile_outcome, CheckErrorView, CheckerDraft, CheckerView, DraftView};
use crate::error::{rule_error_view, RuleErrorView};
use crate::schema::{
    check_keys, draft_views, lemma_one_check_or_list_of_one, outcome, read_rule, rule_draft,
    RuleDraft, RuleDraftView,
};
use crate::text::{holds, holds_text, same_text, texts};
use crate::yaml::{is_field, yaml_outcome, Yaml};
use vstd::prelude::*;

verus! {

/// How grave a finding is. The variants stand in rising order.
#[derive(Debug, Clone, Copy, PartialEq, Eq, PartialOrd, Ord, Hash, Structural)]
pub enum Severity {
    /// No severity was given; written `none`.
    Unrated,
    Low,
    Medium,
    High,
    Critical,
}

impl Default for Severity {
    fn default() -> (r: Severity)
        ensures
            r == Severity::Unrated,
    {
        Severity::Unrated
    }
}

impl Severity {
    /// The place of a severity in the order, from 0 for `Unrated` to 4 for `Critical`.
    pub open spec fn spec_rank(self) -> nat {
        match self {
            Severity::Unrated => 0,
            Severity::Low => 1,
            Severity::Medium => 2,
            Severity::High => 3,
            Severity::Critical => 4,
        }
    }

    /// The severity that a rule file writes as `name`, if it is one of the five
    /// lower-case names.
    pub open spec fn spec_from_name(name: Seq<char>) -> Option<Severity> {
        if name == "none"@ {
            Some(Severity::Unrated)
        } else if name == "low"@ {
            Some(Severity::Low)
        } else if name == "medium"@ {
            Some(Severity::Medium)
        } else if name == "high"@ {
            Some(Severity::High)
        } else if name == "critical"@ {
            Some(Severity::Critical)
        } else {
            None
        }
    }

    /// The place of the severity in the order.
    pub fn rank(&self) -> (r: u8)
        ensures
            r == self.spec_rank(),
    {
        match self {
            Severity::Unrated => 0,
            Severity::Low => 1,
            Severity::Medium => 2,
            Severity::High => 3,
            Severity::Critical => 4,
        }
    }

    /// Whether the severity reaches `threshold`.
    pub fn at_least(&self, threshold: Severity) -> (b: bool)
        ensures
            b == (self.spec_rank() >= threshold.spec_rank()),
    {
        self.rank() >= threshold.rank()
    }

    /// The name under which the severity is written.
    pub open spec fn spec_name(self) -> Seq<char> {
        match self {
            Severity::Unrated => "none"@,
            Severity::Low => "low"@,
            Severity::Medium => "medium"@,
            Severity::High => "high"@,
            Severity::Critical => "critical"@,
        }
    }

    /// The name under which the severity is written.
    pub fn name(&self) -> (r: &'static str)
        ensures
            r@ == self.spec_name(),
    {
        match self {
            Severity::Unrated => "none",
            Severity::Low => "low",
            Severity::Medium => "medium",
            Severity::High => "high",
            Severity::Critical => "critical",
        }
    }

    /// A severity is read back from the name under which it is written.
    pub proof fn lemma_name_reads_back(self)
        ensures
            Severity::spec_from_name(self.spec_name()) == Some(self),
    {
        reveal_strlit("none");
        reveal_strlit("low");
        reveal_strlit("medium");
        reveal_strlit("high");
        reveal_strlit("critical");
        assert("none"@.len() == 4 && "none"@[0] == 'n');
        assert("low"@.len() == 3);
        assert("medium"@.len() == 6);
        assert("high"@.len() == 4 && "high"@[0] == 'h');
        assert("critical"@.len() == 8);
    }

    /// Reads a severity from its name.
    pub fn from_name(name: &str) -> (r: Option<Severity>)
        ensures
            r == Severity::spec_from_name(name@),
    {
        if same_text(name, "none") {
            Some(Severity::Unrated)
        } else if same_text(name, "low") {
            Some(Severity::Low)
        } else if same_text(name, "medium") {
            Some(Severity::Medium)
        } else if same_text(name, "high") {
            Some(Severity::High)
        } else if same_text(name, "critical") {
            Some(Severity::Critical)
        } else {
            None
        }
    }
}

/// The language of a pattern, and of the parser that a scan uses.
#[derive(Debug, Clone, Copy, PartialEq, Eq, PartialOrd, Ord, Structural)]
pub enum CheckerLanguage {
    C,
    Cplusplus,
}

impl Default for CheckerLanguage {
    fn default() -> (r: CheckerLanguage)
        ensures
            r == CheckerLanguage::C,
    {
        CheckerLanguage::C
    }
}

impl CheckerLanguage {
    /// The language that a rule file writes as `name`: `c` or `c++`, in either case.
    pub open spec fn spec_from_name(name: Seq<char>) -> Option<CheckerLanguage> {
        if name == "c"@ || name == "C"@ {
            Some(CheckerLanguage::C)
        } else if name == "c++"@ || name == "C++"@ {
            Some(CheckerLanguage::Cplusplus)
        } else {
            None
        }
    }

    /// Whether the language is C++.
    pub open spec fn spec_is_cxx(&self) -> bool {
        *self == CheckerLanguage::Cplusplus
    }

    /// Whether the language is C.
    pub fn is_c(&self) -> (b: bool)
        ensures
            b == (*self == CheckerLanguage::C),
    {
        match self {
            CheckerLanguage::C => true,
            CheckerLanguage::Cplusplus => false,
        }
    }

    /// Whether the language is C++.
    #[verifier::when_used_as_spec(spec_is_cxx)]
    pub fn is_cxx(&self) -> (b: bool)
        ensures
            b == (*self == CheckerLanguage::Cplusplus),
    {
        match self {
            CheckerLanguage::C => false,
            CheckerLanguage::Cplusplus => true,
        }
    }

    /// The language that stands for the flag `cxx`.
    pub fn from_cxx(cxx: bool) -> (r: CheckerLanguage)
        ensures
            r.spec_is_cxx() == cxx,
    {
        if cxx {
            CheckerLanguage::Cplusplus
        } else {
            CheckerLanguage::C
        }
    }

    /// Reads a language from its name.
    pub fn from_name(name: &str) -> (r: Option<CheckerLanguage>)
        ensures
            r == CheckerLanguage::spec_from_name(name@),
    {
        if same_text(name, "c") || same_text(name, "C") {
            Some(CheckerLanguage::C)
        } else if same_text(name, "c++") || same_text(name, "C++") {
            Some(CheckerLanguage::Cplusplus)
        } else {
            None
        }
    }
}

/// A [`Rule`] as plain values.
pub struct RuleView {
    pub id: Seq<char>,
    pub author: Seq<char>,
    pub description: Seq<char>,
    pub severity: Severity,
    pub tags: Set<Seq<char>>,
    pub checks: Seq<CheckerView>,
}

/// The views of a list of checkers.
pub open spec fn checker_views(checks: Seq<Checker>) -> Seq<CheckerView> {
    checks.map_values(|c: Checker| c@)
}

/// Whether an earlier check than the one at `i` has its name.
pub open spec fn name_taken(checks: Seq<DraftView>, i: int) -> bool {
    exists|j: int| 0 <= j < i && (#[trigger] checks[j]).name == checks[i].name
}

/// The fault of the check at `i`, if it has one.
pub open spec fn check_fault(checks: Seq<DraftView>, i: int) -> Option<RuleErrorView> {
    if checks[i].name.len() == 0 {
        Some(RuleErrorView::Check(CheckErrorView::NoCheckName))
    } else if name_taken(checks, i) {
        Some(RuleErrorView::MultipleChecksWithSameName)
    } else {
        match compile_outcome(checks[i]) {
            Err(e) => Some(RuleErrorView::Check(e)),
            Ok(_) => None,
        }
    }
}

/// Whether the check at `i` is the first with a fault.
pub open spec fn is_first_fault(checks: Seq<DraftView>, i: int) -> bool {
    &&& 0 <= i < checks.len()
    &&& check_fault(checks, i) is Some
    &&& forall|j: int| 0 <= j < i ==> check_fault(checks, j) is None
}

/// Whether no check has a fault.
pub open spec fn no_fault(checks: Seq<DraftView>) -> bool {
    forall|i: int| 0 <= i < checks.len() ==> check_fault(checks, i) is None
}

/// What compiling the checks of a rule gives: the checkers, or the first fault.
pub open spec fn compiled_checks(checks: Seq<DraftView>) -> Result<
    Seq<CheckerView>,
    RuleErrorView,
> {
    if no_fault(checks) {
        Ok(Seq::new(checks.len(), |i: int| compile_outcome(checks[i])->Ok_0))
    } else {
        Err(check_fault(checks, choose|i: int| is_first_fault(checks, i))->Some_0)
    }
}

/// What building a rule from a draft gives.
pub open spec fn build_outcome(d: RuleDraftView) -> Result<RuleView, RuleErrorView> {
    if d.id.len() == 0 {
        Err(RuleErrorView::NoId)
    } else if d.checks.len() == 0 {
        Err(RuleErrorView::NoChecks)
    } else {
        match compiled_checks(d.checks) {
            Err(e) => Err(e),
            Ok(checks) => Ok(
                RuleView {
                    id: d.id,
                    author: d.author,
                    description: d.description,
                    severity: d.severity,
                    tags: Set::new(|t: Seq<char>| d.tags.contains(t)),
                    checks,
                },
            ),
        }
    }
}

/// What loading a rule from a document gives.
pub open spec fn rule_outcome(doc: Yaml) -> Result<RuleView, RuleErrorView> {
    match rule_draft(doc) {
        Err(e) => Err(e),
        Ok(draft) => build_outcome(draft),
    }
}

/// What loading a rule from a text gives.
pub open spec fn text_outcome(text: Seq<char>) -> Result<RuleView, RuleErrorView> {
    match yaml_outcome(text) {
        Err(e) => Err(RuleErrorView::Parse(e)),
        Ok(doc) => rule_outcome(doc),
    }
}

/// What loading a rule from the text of a file gives: a fault names the file.
pub open spec fn file_outcome(path: Seq<char>, text: Seq<char>) -> Result<RuleView, RuleErrorView> {
    match text_outcome(text) {
        Ok(rule) => Ok(rule),
        Err(e) => Err(RuleErrorView::ParseFile(path, Box::new(e))),
    }
}

/// A file that was found, with what reading it gave: its text, or why it could not be
/// read.
#[derive(Debug)]
pub struct RuleFile {
    pub path: String,
    pub contents: Result<String, String>,
}

/// A [`RuleFile`] as plain values.
pub struct FileView {
    pub path: Seq<char>,
    pub contents: Result<Seq<char>, Seq<char>>,
}

impl View for RuleFile {
    type V = FileView;

    open spec fn view(&self) -> FileView {
        FileView {
            path: self.path@,
            contents: match self.contents {
                Ok(text) => Ok(text@),
                Err(why) => Err(why@),
            },
        }
    }
}

/// The views of a list of files.
pub open spec fn file_views(files: Seq<RuleFile>) -> Seq<FileView> {
    files.map_values(|f: RuleFile| f@)
}

/// What loading the rule of a file gives.
#[verifier::opaque]
pub open spec fn load_outcome(file: FileView) -> Result<RuleView, RuleErrorView> {
    match file.contents {
        Ok(text) => file_outcome(file.path, text),
        Err(why) => Err(
            RuleErrorView::ParseFile(file.path, Box::new(RuleErrorView::Unreadable(why))),
        ),
    }
}

/// A document that writes its one check as a mapping, and the document that writes the
/// same check as a list of one, under whichever of the four names, load as the same
/// rule or fail with the same fault.
pub proof fn lemma_one_check_loads_alike(
    doc: Vec<(Yaml, Yaml)>,
    other: Vec<(Yaml, Yaml)>,
    i: int,
    key: String,
    list: Vec<Yaml>,
)
    requires
        is_field(doc@, check_keys(), i),
        doc@[i].1 is Table,
        check_keys().contains(key@),
        list@ == seq![doc@[i].1],
        other@ == doc@.update(i, (Yaml::Text(key), Yaml::List(list))),
    ensures
        rule_outcome(Yaml::Table(other)) == rule_outcome(Yaml::Table(doc)),
{
    lemma_one_check_or_list_of_one(doc@, i, key, list);
}

/// Checks of which two have one name are not compiled, whatever else they say.
pub proof fn lemma_one_name_twice_is_not_compiled(checks: Seq<DraftView>, i: int, j: int)
    requires
        0 <= i < j < checks.len(),
        checks[i].name == checks[j].name,
    ensures
        compiled_checks(checks) is Err,
{
    assert(name_taken(checks, j));
    assert(check_fault(checks, j) is Some);
}

/// Of two checks of one name the second is the fault: where no check before it has a
/// fault of its own, compiling the checks gives the fault of the two names.
pub proof fn lemma_second_of_a_name_is_the_fault(checks: Seq<DraftView>, i: int, j: int)
    requires
        0 <= i < j < checks.len(),
        checks[i].name == checks[j].name,
        forall|k: int| 0 <= k < j ==> check_fault(checks, k) is None,
    ensures
        compiled_checks(checks) == Err::<Seq<CheckerView>, _>(
            RuleErrorView::MultipleChecksWithSameName,
        ),
{
    assert(check_fault(checks, i) is None);
    assert(checks[j].name.len() > 0);
    assert(name_taken(checks, j));
    assert(is_first_fault(checks, j));
    let k = choose|k: int| is_first_fault(checks, k);
    assert(k == j);
}

/// Two checks of one name, of which the first compiles, give the fault of the two
/// names, and no checker.
pub proof fn lemma_two_checks_of_one_name(first: DraftView, second: DraftView)
    requires
        first.name == second.name,
        compile_outcome(first) is Ok,
    ensures
        compiled_checks(seq![first, second]) == Err::<Seq<CheckerView>, _>(
            RuleErrorView::MultipleChecksWithSameName,
        ),
{
    let checks = seq![first, second];
    assert(checks[0] == first && checks[1] == second);
    assert(!name_taken(checks, 0));
    assert(check_fault(checks, 0) is None);
    lemma_second_of_a_name_is_the_fault(checks, 0, 1);
}

/// A rule in which two checks have one name is not built. The fault is that of the
/// two names where the rule has an identifier and, up to the second of the two checks,
/// no check has an empty name, the name of an earlier one, or a fault in compiling.
pub proof fn lemma_same_name_is_rejected(d: RuleDraftView, i: int, j: int)
    requires
        0 <= i < j < d.checks.len(),
        d.checks[i].name == d.checks[j].name,
    ensures
        build_outcome(d) is Err,
        d.id.len() > 0 && d.checks[j].name.len() > 0 && (forall|k: int|
            0 <= k < j ==> check_fault(d.checks, k) is None) ==> build_outcome(d) == Err::<
            RuleView,
            _,
        >(RuleErrorView::MultipleChecksWithSameName),
{
    assert(name_taken(d.checks, j));
    assert(check_fault(d.checks, j) is Some);
    if d.id.len() > 0 && d.checks[j].name.len() > 0 && (forall|k: int|
        0 <= k < j ==> check_fault(d.checks, k) is None) {
        assert(is_first_fault(d.checks, j));
        let k = choose|k: int| is_first_fault(d.checks, k);
        assert(k == j);
    }
}

/// A rule that is built has an identifier, at least one check, and no two checks of
/// one name; each of its checks has a name.
pub proof fn lemma_built_rule_is_sound(d: RuleDraftView)
    requires
        build_outcome(d) is Ok,
    ensures
        build_outcome(d)->Ok_0.id.len() > 0,
        build_outcome(d)->Ok_0.checks.len() > 0,
        distinct_check_names(build_outcome(d)->Ok_0.checks),
        forall|i: int|
            0 <= i < build_outcome(d)->Ok_0.checks.len() ==> (
            #[trigger] build_outcome(d)->Ok_0.checks[i]).name.len() > 0,
{
    let checks = build_outcome(d)->Ok_0.checks;
    assert(no_fault(d.checks));
    assert forall|i: int| 0 <= i < checks.len() implies (#[trigger] checks[i]).name == d.checks[i].name
        && checks[i].name.len() > 0 by {
        assert(check_fault(d.checks, i) is None);
    }
    assert forall|i: int, j: int| 0 <= i < j < checks.len() implies (#[trigger] checks[i]).name != (
    #[trigger] checks[j]).name by {
        assert(check_fault(d.checks, j) is None);
        assert(checks[i].name == d.checks[i].name);
        assert(checks[j].name == d.checks[j].name);
        if checks[i].name == checks[j].name {
            assert(name_taken(d.checks, j));
        }
    }
}

/// Whether no two checkers have one name.
pub open spec fn distinct_check_names(checks: Seq<CheckerView>) -> bool {
    forall|i: int, j: int|
        0 <= i < j < checks.len() ==> (#[trigger] checks[i]).name != (#[trigger] checks[j]).name
}

/// A rule: an identifier, what describes it, and its checks.
#[derive(Debug)]
pub struct Rule {
    id: String,
    author: String,
    description: String,
    severity: Severity,
    tags: Vec<String>,
    checks: Vec<Checker>,
}

impl View for Rule {
    type V = RuleView;

    closed spec fn view(&self) -> RuleView {
        RuleView {
            id: self.id@,
            author: self.author@,
            description: self.description@,
            severity: self.severity,
            tags: Set::new(|t: Seq<char>| holds(self.tags@, t)),
            checks: checker_views(self.checks@),
        }
    }
}

/// The tags, each once, in the order in which they first come.
fn collapse(tags: &Vec<String>) -> (r: Vec<String>)
    ensures
        forall|t: Seq<char>| holds(r@, t) <==> texts(tags@).contains(t),
        forall|i: int, j: int| 0 <= i < j < r@.len() ==> r@[i]@ != r@[j]@,
{
    let mut kept: Vec<String> = Vec::new();
    let mut i: usize = 0;
    while i < tags.len()
        invariant
            i <= tags.len(),
            forall|t: Seq<char>| holds(kept@, t) <==> texts(tags@).take(i as int).contains(t),
            forall|a: int, b: int| 0 <= a < b < kept@.len() ==> kept@[a]@ != kept@[b]@,
        decreases tags.len() - i,
    {
        let ghost before = kept@;
        let ghost done = texts(tags@).take(i as int);
        let known = holds_text(&kept, tags[i].as_str());
        if !known {
            kept.push(tags[i].clone());
        }
        i += 1;
        proof {
            let now = texts(tags@).take(i as int);
            assert(now =~= done.push(tags@[i - 1]@));
            assert forall|t: Seq<char>| holds(kept@, t) <==> now.contains(t) by {
                assert(holds(before, t) <==> done.contains(t));
                if done.contains(t) {
                    let k = choose|k: int| 0 <= k < done.len() && done[k] == t;
                    assert(now[k] == t);
                }
                if now.contains(t) {
                    let k = choose|k: int| 0 <= k < now.len() && now[k] == t;
                    if k < done.len() {
                        assert(done[k] == t);
                    }
                }
                if t == tags@[i - 1]@ {
                    assert(now[i - 1] == t);
                }
                if holds(before, t) {
                    let k = choose|k: int| 0 <= k < before.len() && (#[trigger] before[k])@ == t;
                    assert(kept@[k]@ == t);
                }
                if holds(kept@, t) {
                    let k = choose|k: int| 0 <= k < kept@.len() && (#[trigger] kept@[k])@ == t;
                    if k < before.len() {
                        assert(before[k]@ == t);
                    }
                }
                if !known {
                    assert(kept@[before.len() as int]@ == tags@[i - 1]@);
                }
            }
        }
    }
    assert(texts(tags@).take(i as int) =~= texts(tags@));
    kept
}

/// Compiles the checks of a rule in their order. The first check with a fault ends the
/// compiling with its fault: an empty name, the name of an earlier check, or what
/// compiling the check itself gives.
pub fn compile_checks(drafts: Vec<CheckerDraft>) -> (r: Result<Vec<Checker>, RuleError>)
    ensures
        match r {
            Ok(checks) => compiled_checks(draft_views(drafts@)) == Ok::<
                _,
                RuleErrorView,
            >(checker_views(checks@)) && distinct_check_names(checker_views(checks@))
                && checks@.len() == drafts@.len(),
            Err(e) => compiled_checks(draft_views(drafts@)) == Err::<
                Seq<CheckerView>,
                _,
            >(e@),
        },
{
    let ghost all = draft_views(drafts@);
    let mut checks: Vec<Checker> = Vec::new();
    let mut names: Vec<String> = Vec::new();
    let mut n: usize = 0;
    let total = drafts.len();
    for draft in it: drafts.into_iter()
        invariant
            n == it.index(),
            total == all.len(),
            it.seq() == drafts@,
            all == draft_views(drafts@),
            checks@.len() == n,
            names@.len() == n,
            forall|j: int| 0 <= j < n ==> check_fault(all, j) is None,
            forall|j: int| 0 <= j < n ==> (#[trigger] names@[j])@ == all[j].name,
            forall|j: int| 0 <= j < n ==> (#[trigger] checks@[j])@ == compile_outcome(all[j])->Ok_0,
            forall|j: int| 0 <= j < n ==> (#[trigger] checks@[j])@.name == all[j].name,
    {
        assert(n < total);
        assert(draft == drafts@[n as int]);
        assert(draft@ == all[n as int]);
        if draft.name.as_str().is_empty() {
            proof {
                assert(is_first_fault(all, n as int));
                let k = choose|k: int| is_first_fault(all, k);
                assert(k == n);
            }
            return Err(RuleError::Check(CheckError::NoCheckName));
        }
        let taken = holds_text(&names, draft.name.as_str());
        proof {
            if taken {
                let j = choose|j: int| 0 <= j < names@.len() && (#[trigger] names@[j])@ == draft.name@;
                assert(all[j].name == all[n as int].name);
            }
            if name_taken(all, n as int) {
                let j = choose|j: int| 0 <= j < n && (#[trigger] all[j]).name == all[n as int].name;
                assert(names@[j]@ == draft.name@);
            }
            assert(taken == name_taken(all, n as int));
        }
        if taken {
            proof {
                assert(is_first_fault(all, n as int));
                let k = choose|k: int| is_first_fault(all, k);
                assert(k == n);
            }
            return Err(RuleError::MultipleChecksWithSameName);
        }
        names.push(draft.name.clone());
        match Checker::compile(draft) {
            Ok(check) => {
                checks.push(check);
            },
            Err(e) => {
                proof {
                    assert(is_first_fault(all, n as int));
                    let k = choose|k: int| is_first_fault(all, k);
                    assert(k == n);
                }
                return Err(RuleError::Check(e));
            },
        }
        n += 1;
    }
    proof {
        assert(no_fault(all));
        let views = checker_views(checks@);
        assert(views =~= Seq::new(all.len(), |i: int| compile_outcome(all[i])->Ok_0));
        assert forall|i: int, j: int| 0 <= i < j < views.len() implies (#[trigger] views[i]).name != (
        #[trigger] views[j]).name by {
            assert(check_fault(all, j) is None);
            if views[i].name == views[j].name {
                assert(all[i].name == all[j].name);
                assert(name_taken(all, j));
            }
        }
    }
    Ok(checks)
}

impl Rule {
    #[verifier::type_invariant]
    spec fn well_formed(self) -> bool {
        &&& self.id@.len() > 0
        &&& self.checks@.len() > 0
        &&& distinct_check_names(checker_views(self.checks@))
        &&& forall|i: int, j: int| 0 <= i < j < self.tags@.len() ==> self.tags@[i]@ != self.tags@[j]@
    }

    /// Builds a rule from a draft.
    pub fn from_draft(draft: RuleDraft) -> (r: Result<Rule, RuleError>)
        ensures
            outcome(r) == build_outcome(draft@),
    {
        if draft.id.as_str().is_empty() {
            return Err(RuleError::NoId);
        }
        if draft.checks.len() == 0 {
            return Err(RuleError::NoChecks);
        }
        let tags = collapse(&draft.tags);
        let checks = match compile_checks(draft.checks) {
            Ok(checks) => checks,
            Err(e) => {
                return Err(e);
            },
        };
        let rule = Rule {
            id: draft.id,
            author: draft.author,
            description: draft.description,
            severity: draft.severity,
            tags,
            checks,
        };
        assert(rule@.tags =~= Set::new(|t: Seq<char>| draft@.tags.contains(t)));
        Ok(rule)
    }

    /// Loads a rule from a YAML document.
    pub fn from_document(doc: &Yaml) -> (r: Result<Rule, RuleError>)
        ensures
            outcome(r) == rule_outcome(*doc),
    {
        match read_rule(doc) {
            Ok(draft) => Rule::from_draft(draft),
            Err(e) => Err(e),
        }
    }

    /// Loads a rule from the text of a YAML document.
    pub fn from_str(rule: &str) -> (r: Result<Rule, RuleError>)
        ensures
            outcome(r) == text_outcome(rule@),
    {
        match Yaml::parse(rule) {
            Ok(doc) => Rule::from_document(&doc),
            Err(e) => Err(RuleError::Parse(e)),
        }
    }

    /// Loads the rule of a file from what reading the file gave. A fault names the
    /// file.
    pub fn from_file(file: &RuleFile) -> (r: Result<Rule, RuleError>)
        ensures
            outcome(r) == load_outcome(file@),
    {
        proof {
            reveal(load_outcome);
            reveal_with_fuel(rule_error_view, 2);
        }
        match &file.contents {
            Ok(text) => match Rule::from_str(text.as_str()) {
                Ok(rule) => Ok(rule),
                Err(e) => Err(RuleError::ParseFile(file.path.clone(), Box::new(e))),
            },
            Err(why) => Err(
                RuleError::ParseFile(file.path.clone(), Box::new(RuleError::Unreadable(why.clone()))),
            ),
        }
    }

    /// The rule's identifier, which is not empty.
    pub fn id(&self) -> (r: &str)
        ensures
            r@ == self@.id,
            r@.len() > 0,
    {
        proof {
            use_type_invariant(self);
        }
        self.id.as_str()
    }

    /// The rule's author, if one is given.
    pub fn author(&self) -> (r: Option<&str>)
        ensures
            match r {
                Some(author) => author@ == self@.author && author@.len() > 0,
                None => self@.author.len() == 0,
            },
    {
        if self.author.as_str().is_empty() {
            None
        } else {
            Some(self.author.as_str())
        }
    }

    /// The rule's description, if one is given.
    pub fn description(&self) -> (r: Option<&str>)
        ensures
            match r {
                Some(description) => description@ == self@.description && description@.len() > 0,
                None => self@.description.len() == 0,
            },
    {
        if self.description.as_str().is_empty() {
            None
        } else {
            Some(self.description.as_str())
        }
    }

    /// The rule's severity.
    pub fn severity(&self) -> (r: Severity)
        ensures
            r == self@.severity,
    {
        self.severity
    }

    /// The rule's tags, each once.
    pub fn tags(&self) -> (r: &Vec<String>)
        ensures
            forall|t: Seq<char>| holds(r@, t) <==> self@.tags.contains(t),
            forall|i: int, j: int| 0 <= i < j < r@.len() ==> r@[i]@ != r@[j]@,
    {
        proof {
            use_type_invariant(self);
        }
        &self.tags
    }

    /// Whether the rule has the tag.
    pub fn has_tag(&self, tag: &str) -> (b: bool)
        ensures
            b == self@.tags.contains(tag@),
    {
        holds_text(&self.tags, tag)
    }

    /// The rule's checks: at least one, no two of one name.
    pub fn checks(&self) -> (r: &[Checker])
        ensures
            checker_views(r@) == self@.checks,
            r@.len() > 0,
            distinct_check_names(self@.checks),
    {
        proof {
            use_type_invariant(self);
        }
        self.checks.as_slice()
    }
}

} // verus!
