//! Reports: what a match says, flattened into values that outlive the match and that a
//! consumer can write out.
//!
//! A report gives the rule's identifier, the check's name, the rule's description and
//! tags, its severity, the source that was scanned, and the match as the offset at
//! which it starts and the texts that its variables captured, beside the engine's own
//! record of it. A description that is empty is no description.

use crate::matcher::{RecordView, RuleMatch};
use crate::rule::Severity;
use crate::source::share;
use crate::structural::{binding_pairs, Binding};
use crate::text::holds;
use std::sync::Arc;
use vstd::prelude::*;

verus! {

/// A [`RuleMatchReport`] as plain values.
pub struct ReportView {
    pub rule: Seq<char>,
    pub checker: Seq<char>,
    pub description: Seq<char>,
    pub tags: Set<Seq<char>>,
    pub severity: Severity,
    pub source: Seq<char>,
    pub start_offset: nat,
    pub bindings: Set<(Seq<char>, Seq<char>)>,
    pub record: weggli::result::QueryResult,
}

/// What the report of a match says.
pub open spec fn report_of(m: RecordView) -> ReportView {
    ReportView {
        rule: m.rule.id,
        checker: m.rule.checks[m.checker_id].name,
        description: m.rule.description,
        tags: m.rule.tags,
        severity: m.rule.severity,
        source: m.source,
        start_offset: m.result.start_offset,
        bindings: m.result.bindings,
        record: m.result.record,
    }
}

/// The report of one match.
#[derive(Debug, Clone)]
pub struct RuleMatchReport {
    rule: String,
    checker: String,
    description: String,
    tags: Vec<String>,
    severity: Severity,
    source: Arc<String>,
    start_offset: usize,
    bindings: Vec<Binding>,
    result: Arc<weggli::result::QueryResult>,
}

impl View for RuleMatchReport {
    type V = ReportView;

    closed spec fn view(&self) -> ReportView {
        ReportView {
            rule: self.rule@,
            checker: self.checker@,
            description: self.description@,
            tags: Set::new(|t: Seq<char>| holds(self.tags@, t)),
            severity: self.severity,
            source: self.source@,
            start_offset: self.start_offset as nat,
            bindings: binding_pairs(self.bindings@),
            record: *self.result,
        }
    }
}

/// A copy of a list of strings.
fn copy_texts(texts: &Vec<String>) -> (r: Vec<String>)
    ensures
        r@.len() == texts@.len(),
        forall|i: int| 0 <= i < r@.len() ==> (#[trigger] r@[i])@ == texts@[i]@,
{
    let mut copy: Vec<String> = Vec::new();
    let mut i: usize = 0;
    while i < texts.len()
        invariant
            i <= texts.len(),
            copy@.len() == i,
            forall|j: int| 0 <= j < i ==> (#[trigger] copy@[j])@ == texts@[j]@,
        decreases texts.len() - i,
    {
        copy.push(texts[i].clone());
        i += 1;
    }
    copy
}

/// A copy of a list of bindings.
fn copy_bindings(bindings: &Vec<Binding>) -> (r: Vec<Binding>)
    ensures
        binding_pairs(r@) == binding_pairs(bindings@),
{
    let mut copy: Vec<Binding> = Vec::new();
    let mut i: usize = 0;
    while i < bindings.len()
        invariant
            i <= bindings.len(),
            copy@.len() == i,
            forall|j: int|
                0 <= j < i ==> (#[trigger] copy@[j]).name@ == bindings@[j].name@ && copy@[j].value@
                    == bindings@[j].value@,
        decreases bindings.len() - i,
    {
        let binding = &bindings[i];
        copy.push(Binding { name: binding.name.clone(), value: binding.value.clone() });
        i += 1;
    }
    assert(copy@.map_values(|b: Binding| (b.name@, b.value@)) =~= bindings@.map_values(
        |b: Binding| (b.name@, b.value@),
    ));
    copy
}

impl RuleMatchReport {
    /// The record that the engine made of the match.
    pub open spec fn engine_record(&self) -> weggli::result::QueryResult {
        self@.record
    }

    /// The report of a match. It holds the engine's record of that match.
    pub fn new(m: &RuleMatch) -> (r: RuleMatchReport)
        ensures
            r@ == report_of(m@),
            r.engine_record() == m.engine_record(),
    {
        let rule = m.rule();
        let rule_tags = rule.tags();
        let tags = copy_texts(rule_tags);
        let description = match rule.description() {
            Some(description) => description.to_owned(),
            None => String::new(),
        };
        let report = RuleMatchReport {
            rule: rule.id().to_owned(),
            checker: m.checker().name().to_owned(),
            description,
            tags,
            severity: rule.severity(),
            source: m.source(),
            start_offset: m.structural().start_offset(),
            bindings: copy_bindings(m.structural().bindings()),
            result: m.structural().shared_result(),
        };
        proof {
            assert(report@.description =~= m@.rule.description);
            assert forall|t: Seq<char>| holds(report.tags@, t) <==> m@.rule.tags.contains(t) by {
                if holds(report.tags@, t) {
                    let j = choose|j: int|
                        0 <= j < report.tags@.len() && (#[trigger] report.tags@[j])@ == t;
                    assert(rule_tags@[j]@ == t);
                }
                if holds(rule_tags@, t) {
                    let j = choose|j: int|
                        0 <= j < rule_tags@.len() && (#[trigger] rule_tags@[j])@ == t;
                    assert(report.tags@[j]@ == t);
                }
            }
            assert(report@.tags =~= m@.rule.tags);
        }
        report
    }

    /// The identifier of the rule.
    pub fn rule(&self) -> (r: &str)
        ensures
            r@ == self@.rule,
    {
        self.rule.as_str()
    }

    /// The name of the check.
    pub fn checker(&self) -> (r: &str)
        ensures
            r@ == self@.checker,
    {
        self.checker.as_str()
    }

    /// The description of the rule, if it has one. A report without one is written
    /// without the field.
    pub fn description(&self) -> (r: Option<&str>)
        ensures
            match r {
                Some(description) => description@ == self@.description && description@.len() > 0,
                None => self@.description.len() == 0,
            },
    {
        if self.description.as_str().is_empty() {
            None
        } else {
            Some(self.description.as_str())
        }
    }

    /// The severity of the rule.
    pub fn severity(&self) -> (r: Severity)
        ensures
            r == self@.severity,
    {
        self.severity
    }

    /// The tags of the rule. A report without tags is written without the field.
    pub fn tags(&self) -> (r: &Vec<String>)
        ensures
            forall|t: Seq<char>| holds(r@, t) <==> self@.tags.contains(t),
    {
        &self.tags
    }

    /// The source that was scanned.
    pub fn source(&self) -> (r: &str)
        ensures
            r@ == self@.source,
    {
        self.source.as_str()
    }

    /// The byte offset in the source at which the match starts.
    pub fn start_offset(&self) -> (r: usize)
        ensures
            r == self@.start_offset,
    {
        self.start_offset
    }

    /// The variables of the match with the texts they captured.
    pub fn bindings(&self) -> (r: &Vec<Binding>)
        ensures
            binding_pairs(r@) == self@.bindings,
    {
        &self.bindings
    }

    /// The engine's own record of the match, which the report shares with the match.
    pub fn result(&self) -> (r: &weggli::result::QueryResult)
        ensures
            *r == self.engine_record(),
    {
        &self.result
    }

    /// The report as a value of its own: it never borrows from the match, so this is
    /// the report itself.
    pub fn into_owned(self) -> (r: RuleMatchReport)
        ensures
            r == self,
    {
        self
    }
}

} // verus!
