//! The schema of rule documents: which fields a rule and a check have, under which
//! names, of which kind, and what stands for a field that is missing.
//!
//! A rule is a mapping with the fields `id`, `author`, `description`, `severity`,
//! `tags`, and its checks under one of `check patterns`, `check-patterns`,
//! `check pattern` and `check-pattern`: one check as a mapping, or a list of checks that
//! is not empty. A check is a mapping with the fields `name`, `language`, `pattern`,
//! `regexes` (also `regex`: one string or a list of strings that is not empty), `limit`
//! and `unique`. Keys that are none of these are passed over. Fields are read in the
//! order given here, and the first fault ends the reading.

use crate::checker::{CheckError, CheckErrorView, CheckerDraft, DraftView};
use crate::error::{RuleError, RuleErrorView, SchemaError, SchemaErrorView};
use crate::rule::{CheckerLanguage, Severity};
use crate::text::texts;
use crate::yaml::{field, find_field, is_field, locate, Found, Place, Yaml};
use vstd::prelude::*;
use vstd::string::StringExecFns;

verus! {

/// A rule as it is written, before anything is compiled.
#[derive(Debug)]
pub struct RuleDraft {
    pub id: String,
    pub author: String,
    pub description: String,
    pub severity: Severity,
    pub tags: Vec<String>,
    pub checks: Vec<CheckerDraft>,
}

/// A [`RuleDraft`] as plain values.
pub struct RuleDraftView {
    pub id: Seq<char>,
    pub author: Seq<char>,
    pub description: Seq<char>,
    pub severity: Severity,
    pub tags: Seq<Seq<char>>,
    pub checks: Seq<DraftView>,
}

/// The views of a list of check drafts.
pub open spec fn draft_views(checks: Seq<CheckerDraft>) -> Seq<DraftView> {
    checks.map_values(|c: CheckerDraft| c@)
}

impl View for RuleDraft {
    type V = RuleDraftView;

    open spec fn view(&self) -> RuleDraftView {
        RuleDraftView {
            id: self.id@,
            author: self.author@,
            description: self.description@,
            severity: self.severity,
            tags: texts(self.tags@),
            checks: draft_views(self.checks@),
        }
    }
}

/// The name of a check that is written without one.
pub open spec fn default_name() -> Seq<char> {
    "default"@
}

/// The names under which the checks of a rule stand.
pub open spec fn check_keys() -> Seq<Seq<char>> {
    seq!["check patterns"@, "check-patterns"@, "check pattern"@, "check-pattern"@]
}

/// The names under which the constraints of a check stand.
pub open spec fn regex_keys() -> Seq<Seq<char>> {
    seq!["regexes"@, "regex"@]
}

/// The fault of a field that holds a value of the wrong kind.
pub open spec fn invalid(names: Seq<Seq<char>>) -> RuleErrorView {
    RuleErrorView::Schema(SchemaErrorView::InvalidField(names[0]))
}

/// The value of a field, or the fault of one that stands more than once.
pub open spec fn lookup(entries: Seq<(Yaml, Yaml)>, names: Seq<Seq<char>>) -> Result<
    Option<Yaml>,
    RuleErrorView,
> {
    match field(entries, names) {
        Some(value) => Ok(value),
        None => Err(RuleErrorView::Schema(SchemaErrorView::RepeatedField(names[0]))),
    }
}

/// A field that holds a string, with what stands for it where it is missing.
pub open spec fn text_field(
    entries: Seq<(Yaml, Yaml)>,
    names: Seq<Seq<char>>,
    missing: Result<Seq<char>, RuleErrorView>,
) -> Result<Seq<char>, RuleErrorView> {
    match lookup(entries, names) {
        Err(e) => Err(e),
        Ok(None) => missing,
        Ok(Some(Yaml::Text(text))) => Ok(text@),
        Ok(Some(_)) => Err(invalid(names)),
    }
}

/// A field that holds a boolean, unset where it is missing.
pub open spec fn flag_field(entries: Seq<(Yaml, Yaml)>, names: Seq<Seq<char>>) -> Result<
    bool,
    RuleErrorView,
> {
    match lookup(entries, names) {
        Err(e) => Err(e),
        Ok(None) => Ok(false),
        Ok(Some(Yaml::Flag(flag))) => Ok(flag),
        Ok(Some(_)) => Err(invalid(names)),
    }
}

/// The field `severity`.
pub open spec fn severity_field(entries: Seq<(Yaml, Yaml)>) -> Result<Severity, RuleErrorView> {
    let names = seq!["severity"@];
    match lookup(entries, names) {
        Err(e) => Err(e),
        Ok(None) => Ok(Severity::Unrated),
        Ok(Some(Yaml::Text(name))) => match Severity::spec_from_name(name@) {
            Some(severity) => Ok(severity),
            None => Err(invalid(names)),
        },
        Ok(Some(_)) => Err(invalid(names)),
    }
}

/// The field `language`.
pub open spec fn language_field(entries: Seq<(Yaml, Yaml)>) -> Result<
    CheckerLanguage,
    RuleErrorView,
> {
    let names = seq!["language"@];
    match lookup(entries, names) {
        Err(e) => Err(e),
        Ok(None) => Ok(CheckerLanguage::C),
        Ok(Some(Yaml::Text(name))) => match CheckerLanguage::spec_from_name(name@) {
            Some(language) => Ok(language),
            None => Err(invalid(names)),
        },
        Ok(Some(_)) => Err(invalid(names)),
    }
}

/// Whether every item is a string.
pub open spec fn all_text(items: Seq<Yaml>) -> bool {
    forall|i: int| 0 <= i < items.len() ==> (#[trigger] items[i]) is Text
}

/// The strings of a list of strings.
pub open spec fn item_texts(items: Seq<Yaml>) -> Seq<Seq<char>> {
    Seq::new(items.len(), |i: int| items[i]->Text_0@)
}

/// The field `tags`: a list of strings, empty where the field is missing.
pub open spec fn tags_field(entries: Seq<(Yaml, Yaml)>) -> Result<Seq<Seq<char>>, RuleErrorView> {
    let names = seq!["tags"@];
    match lookup(entries, names) {
        Err(e) => Err(e),
        Ok(None) => Ok(Seq::empty()),
        Ok(Some(Yaml::List(items))) => if all_text(items@) {
            Ok(item_texts(items@))
        } else {
            Err(invalid(names))
        },
        Ok(Some(_)) => Err(invalid(names)),
    }
}

/// The constraints of a check: one string, or a list of strings that is not empty;
/// none where the field is missing or null.
pub open spec fn regexes_field(entries: Seq<(Yaml, Yaml)>) -> Result<
    Seq<Seq<char>>,
    RuleErrorView,
> {
    let names = regex_keys();
    match lookup(entries, names) {
        Err(e) => Err(e),
        Ok(None) => Ok(Seq::empty()),
        Ok(Some(Yaml::Null)) => Ok(Seq::empty()),
        Ok(Some(Yaml::Text(text))) => Ok(seq![text@]),
        Ok(Some(Yaml::List(items))) => if items@.len() > 0 && all_text(items@) {
            Ok(item_texts(items@))
        } else {
            Err(invalid(names))
        },
        Ok(Some(_)) => Err(invalid(names)),
    }
}

/// The check that a node of a document writes.
pub open spec fn check_draft(node: Yaml) -> Result<DraftView, RuleErrorView> {
    match node {
        Yaml::Table(entries) => {
            let e = entries@;
            let name = text_field(e, seq!["name"@], Ok(default_name()));
            let language = language_field(e);
            let pattern = text_field(
                e,
                seq!["pattern"@],
                Err(RuleErrorView::Check(CheckErrorView::NoCheckPatterns)),
            );
            let regexes = regexes_field(e);
            let limit = flag_field(e, seq!["limit"@]);
            let unique = flag_field(e, seq!["unique"@]);
            if name is Err {
                Err(name->Err_0)
            } else if language is Err {
                Err(language->Err_0)
            } else if pattern is Err {
                Err(pattern->Err_0)
            } else if regexes is Err {
                Err(regexes->Err_0)
            } else if limit is Err {
                Err(limit->Err_0)
            } else if unique is Err {
                Err(unique->Err_0)
            } else {
                Ok(
                    DraftView {
                        name: name->Ok_0,
                        language: language->Ok_0,
                        pattern: pattern->Ok_0,
                        regexes: regexes->Ok_0,
                        limit: limit->Ok_0,
                        unique: unique->Ok_0,
                    },
                )
            }
        },
        _ => Err(RuleErrorView::Schema(SchemaErrorView::NotATable)),
    }
}

/// Whether `i` is the first node that writes no check.
pub open spec fn is_first_bad(nodes: Seq<Yaml>, i: int) -> bool {
    &&& 0 <= i < nodes.len()
    &&& check_draft(nodes[i]) is Err
    &&& forall|j: int| 0 <= j < i ==> check_draft(#[trigger] nodes[j]) is Ok
}

/// The checks that a list of nodes writes, or the fault of the first that writes none.
pub open spec fn check_drafts(nodes: Seq<Yaml>) -> Result<Seq<DraftView>, RuleErrorView> {
    if forall|i: int| 0 <= i < nodes.len() ==> check_draft(#[trigger] nodes[i]) is Ok {
        Ok(Seq::new(nodes.len(), |i: int| check_draft(nodes[i])->Ok_0))
    } else {
        Err(check_draft(nodes[choose|i: int| is_first_bad(nodes, i)])->Err_0)
    }
}

/// The checks of a rule: one check written as a mapping, or a list of checks.
pub open spec fn checks_field(entries: Seq<(Yaml, Yaml)>) -> Result<Seq<DraftView>, RuleErrorView> {
    let names = check_keys();
    match lookup(entries, names) {
        Err(e) => Err(e),
        Ok(None) => Err(RuleErrorView::NoChecks),
        Ok(Some(Yaml::Table(check))) => check_drafts(seq![Yaml::Table(check)]),
        Ok(Some(Yaml::List(items))) => if items@.len() == 0 {
            Err(RuleErrorView::NoChecks)
        } else {
            check_drafts(items@)
        },
        Ok(Some(_)) => Err(invalid(names)),
    }
}

/// The rule that the entries of a mapping write.
pub open spec fn rule_draft_of(e: Seq<(Yaml, Yaml)>) -> Result<RuleDraftView, RuleErrorView> {
    let id = text_field(e, seq!["id"@], Err(RuleErrorView::NoId));
    let author = text_field(e, seq!["author"@], Ok(Seq::empty()));
    let description = text_field(e, seq!["description"@], Ok(Seq::empty()));
    let severity = severity_field(e);
    let tags = tags_field(e);
    let checks = checks_field(e);
    if id is Err {
        Err(id->Err_0)
    } else if author is Err {
        Err(author->Err_0)
    } else if description is Err {
        Err(description->Err_0)
    } else if severity is Err {
        Err(severity->Err_0)
    } else if tags is Err {
        Err(tags->Err_0)
    } else if checks is Err {
        Err(checks->Err_0)
    } else {
        Ok(
            RuleDraftView {
                id: id->Ok_0,
                author: author->Ok_0,
                description: description->Ok_0,
                severity: severity->Ok_0,
                tags: tags->Ok_0,
                checks: checks->Ok_0,
            },
        )
    }
}

/// The rule that a document writes.
pub open spec fn rule_draft(doc: Yaml) -> Result<RuleDraftView, RuleErrorView> {
    match doc {
        Yaml::Table(entries) => rule_draft_of(entries@),
        _ => Err(RuleErrorView::Schema(SchemaErrorView::NotATable)),
    }
}

/// Two lists of entries in which the same places hold a field, hold it alike.
pub proof fn lemma_find_alike(a: Seq<(Yaml, Yaml)>, b: Seq<(Yaml, Yaml)>, names: Seq<Seq<char>>)
    requires
        forall|j: int| is_field(a, names, j) == is_field(b, names, j),
    ensures
        locate(a, names) == locate(b, names),
{
    if forall|j: int| !is_field(a, names, j) {
        assert(forall|j: int| !is_field(b, names, j));
    } else if exists|x: int, y: int| x != y && is_field(a, names, x) && is_field(a, names, y) {
        let (x, y) = choose|x: int, y: int|
            x != y && is_field(a, names, x) && is_field(a, names, y);
        assert(x != y && is_field(b, names, x) && is_field(b, names, y));
        let w = choose|j: int| is_field(a, names, j);
        assert(is_field(b, names, w));
    } else {
        let ka = choose|j: int| is_field(a, names, j);
        assert(is_field(a, names, ka));
        assert(is_field(b, names, ka));
        let kb = choose|j: int| is_field(b, names, j);
        assert(is_field(b, names, kb));
        assert(is_field(a, names, kb));
        assert(ka == kb);
        assert(!(exists|x: int, y: int|
            x != y && is_field(b, names, x) && is_field(b, names, y))) by {
            if exists|x: int, y: int| x != y && is_field(b, names, x) && is_field(b, names, y) {
                let (x, y) = choose|x: int, y: int|
                    x != y && is_field(b, names, x) && is_field(b, names, y);
                assert(x != y && is_field(a, names, x) && is_field(a, names, y));
            }
        }
    }
}

/// Whether none of `names` is a name of the checks.
pub open spec fn no_check_key(names: Seq<Seq<char>>) -> bool {
    forall|k: Seq<char>| check_keys().contains(k) ==> !names.contains(k)
}

/// The names of the other fields of a rule are none of the checks.
pub proof fn lemma_other_names()
    ensures
        no_check_key(seq!["id"@]),
        no_check_key(seq!["author"@]),
        no_check_key(seq!["description"@]),
        no_check_key(seq!["severity"@]),
        no_check_key(seq!["tags"@]),
{
    reveal_strlit("id");
    reveal_strlit("author");
    reveal_strlit("description");
    reveal_strlit("severity");
    reveal_strlit("tags");
    reveal_strlit("check patterns");
    reveal_strlit("check-patterns");
    reveal_strlit("check pattern");
    reveal_strlit("check-pattern");
    assert("id"@.len() == 2);
    assert("author"@.len() == 6);
    assert("description"@.len() == 11);
    assert("severity"@.len() == 8);
    assert("tags"@.len() == 4);
    assert("check patterns"@.len() == 14);
    assert("check-patterns"@.len() == 14);
    assert("check pattern"@.len() == 13);
    assert("check-pattern"@.len() == 13);
    assert forall|k: Seq<char>| check_keys().contains(k) implies k.len() >= 13 by {
        let j = choose|j: int| 0 <= j < check_keys().len() && check_keys()[j] == k;
        assert(check_keys().len() == 4);
    }
    assert forall|names: Seq<Seq<char>>|
        names.len() == 1 && names[0].len() < 13 implies #[trigger] no_check_key(names) by {
        assert forall|k: Seq<char>| check_keys().contains(k) implies !names.contains(k) by {
            if names.contains(k) {
                let j = choose|j: int| 0 <= j < names.len() && names[j] == k;
                assert(names[0] == k);
            }
        }
    }
    assert(seq!["id"@].len() == 1 && seq!["id"@][0] == "id"@);
    assert(seq!["author"@].len() == 1 && seq!["author"@][0] == "author"@);
    assert(seq!["description"@].len() == 1 && seq!["description"@][0] == "description"@);
    assert(seq!["severity"@].len() == 1 && seq!["severity"@][0] == "severity"@);
    assert(seq!["tags"@].len() == 1 && seq!["tags"@][0] == "tags"@);
}

/// A field that is none of the checks is read alike from a list of entries and from
/// the list in which the entry of the checks is written otherwise.
pub proof fn lemma_other_field_alike(
    entries: Seq<(Yaml, Yaml)>,
    i: int,
    other: (Yaml, Yaml),
    names: Seq<Seq<char>>,
)
    requires
        is_field(entries, check_keys(), i),
        other.0 matches Yaml::Text(key) && check_keys().contains(key@),
        no_check_key(names),
    ensures
        field(entries.update(i, other), names) == field(entries, names),
{
    let changed = entries.update(i, other);
    assert forall|j: int| is_field(changed, names, j) == is_field(entries, names, j) by {
        if 0 <= j < entries.len() && j != i {
            assert(changed[j] == entries[j]);
        }
    }
    lemma_find_alike(changed, entries, names);
    match locate(entries, names) {
        Place::At(k) => {
            let w = choose|j: int| is_field(entries, names, j);
            assert(is_field(entries, names, w));
            assert(w != i);
            assert(k == w);
            assert(changed[k] == entries[k]);
        },
        _ => {},
    }
}

/// A rule that writes its one check as a mapping, and the rule that writes the same
/// check as a list of one, under whichever of the four names, are read as the same
/// draft.
pub proof fn lemma_one_check_or_list_of_one(
    entries: Seq<(Yaml, Yaml)>,
    i: int,
    key: String,
    list: Vec<Yaml>,
)
    requires
        is_field(entries, check_keys(), i),
        entries[i].1 is Table,
        check_keys().contains(key@),
        list@ == seq![entries[i].1],
    ensures
        rule_draft_of(entries.update(i, (Yaml::Text(key), Yaml::List(list)))) == rule_draft_of(
            entries,
        ),
{
    let other = (Yaml::Text(key), Yaml::List(list));
    let changed = entries.update(i, other);
    lemma_other_names();
    lemma_other_field_alike(entries, i, other, seq!["id"@]);
    lemma_other_field_alike(entries, i, other, seq!["author"@]);
    lemma_other_field_alike(entries, i, other, seq!["description"@]);
    lemma_other_field_alike(entries, i, other, seq!["severity"@]);
    lemma_other_field_alike(entries, i, other, seq!["tags"@]);
    assert forall|j: int|
        is_field(changed, check_keys(), j) == is_field(entries, check_keys(), j) by {
        if 0 <= j < entries.len() && j != i {
            assert(changed[j] == entries[j]);
        }
    }
    lemma_find_alike(changed, entries, check_keys());
    assert(checks_field(changed) == checks_field(entries)) by {
        match locate(entries, check_keys()) {
            Place::At(k) => {
                let w = choose|j: int| is_field(entries, check_keys(), j);
                assert(is_field(entries, check_keys(), w));
                assert(w == i);
                assert(k == i);
                assert(changed[i].1 == Yaml::List(list));
                assert(seq![entries[i].1].len() == 1);
            },
            _ => {},
        }
    }
}

/// What an executable result says, as plain values.
pub open spec fn outcome<T: View, E: View>(r: Result<T, E>) -> Result<T::V, E::V> {
    match r {
        Ok(value) => Ok(value@),
        Err(e) => Err(e@),
    }
}

/// What a result that holds a list of strings says, as plain values.
pub open spec fn texts_outcome(r: Result<Vec<String>, RuleError>) -> Result<
    Seq<Seq<char>>,
    RuleErrorView,
> {
    match r {
        Ok(value) => Ok(texts(value@)),
        Err(e) => Err(e@),
    }
}

/// What a result that holds a list of check drafts says, as plain values.
pub open spec fn drafts_outcome(r: Result<Vec<CheckerDraft>, RuleError>) -> Result<
    Seq<DraftView>,
    RuleErrorView,
> {
    match r {
        Ok(value) => Ok(draft_views(value@)),
        Err(e) => Err(e@),
    }
}

/// The name of a check that is written without one.
pub fn default_check_name() -> (r: String)
    ensures
        r@ == default_name(),
{
    "default".to_owned()
}

/// One name.
fn one_name(a: &str) -> (r: Vec<String>)
    ensures
        r@.len() == 1,
        texts(r@) == seq![a@],
{
    let mut names: Vec<String> = Vec::new();
    names.push(a.to_owned());
    assert(texts(names@) =~= seq![a@]);
    names
}

/// One more name.
fn add_name(names: &mut Vec<String>, a: &str)
    ensures
        final(names)@.len() == old(names)@.len() + 1,
        texts(final(names)@) == texts(old(names)@).push(a@),
{
    names.push(a.to_owned());
    assert(texts(names@) =~= texts(old(names)@).push(a@));
}

/// The fault of a field that holds a value of the wrong kind.
fn invalid_field(names: &Vec<String>) -> (e: RuleError)
    requires
        names.len() > 0,
    ensures
        e@ == invalid(texts(names@)),
{
    RuleError::Schema(SchemaError::InvalidField(names[0].clone()))
}

/// The value of a field.
fn get<'a>(entries: &'a Vec<(Yaml, Yaml)>, names: &Vec<String>) -> (r: Result<
    Option<&'a Yaml>,
    RuleError,
>)
    requires
        names.len() > 0,
    ensures
        match r {
            Ok(Some(value)) => lookup(entries@, texts(names@)) == Ok::<_, RuleErrorView>(
                Some(*value),
            ),
            Ok(None) => lookup(entries@, texts(names@)) == Ok::<Option<Yaml>, RuleErrorView>(None),
            Err(e) => lookup(entries@, texts(names@)) == Err::<Option<Yaml>, _>(e@),
        },
{
    match find_field(entries, names) {
        Found::Missing => Ok(None),
        Found::Repeated => Err(RuleError::Schema(SchemaError::RepeatedField(names[0].clone()))),
        Found::At(i) => Ok(Some(&entries[i].1)),
    }
}

/// Reads a field that holds a string.
fn read_text(entries: &Vec<(Yaml, Yaml)>, names: &Vec<String>, missing: Result<String, RuleError>) -> (r:
    Result<String, RuleError>)
    requires
        names.len() > 0,
    ensures
        outcome(r) == text_field(entries@, texts(names@), outcome(missing)),
{
    match get(entries, names) {
        Err(e) => Err(e),
        Ok(None) => missing,
        Ok(Some(Yaml::Text(text))) => Ok(text.clone()),
        Ok(Some(_)) => Err(invalid_field(names)),
    }
}

/// Reads a field that holds a boolean.
fn read_flag(entries: &Vec<(Yaml, Yaml)>, names: &Vec<String>) -> (r: Result<bool, RuleError>)
    requires
        names.len() > 0,
    ensures
        outcome(r) == flag_field(entries@, texts(names@)),
{
    match get(entries, names) {
        Err(e) => Err(e),
        Ok(None) => Ok(false),
        Ok(Some(Yaml::Flag(flag))) => Ok(*flag),
        Ok(Some(_)) => Err(invalid_field(names)),
    }
}

/// Reads the field `severity`.
fn read_severity(entries: &Vec<(Yaml, Yaml)>) -> (r: Result<Severity, RuleError>)
    ensures
        match r {
            Ok(severity) => severity_field(entries@) == Ok::<_, RuleErrorView>(severity),
            Err(e) => severity_field(entries@) == Err::<Severity, _>(e@),
        },
{
    let names = one_name("severity");
    match get(entries, &names) {
        Err(e) => Err(e),
        Ok(None) => Ok(Severity::Unrated),
        Ok(Some(Yaml::Text(name))) => match Severity::from_name(name.as_str()) {
            Some(severity) => Ok(severity),
            None => Err(invalid_field(&names)),
        },
        Ok(Some(_)) => Err(invalid_field(&names)),
    }
}

/// Reads the field `language`.
fn read_language(entries: &Vec<(Yaml, Yaml)>) -> (r: Result<CheckerLanguage, RuleError>)
    ensures
        match r {
            Ok(language) => language_field(entries@) == Ok::<_, RuleErrorView>(language),
            Err(e) => language_field(entries@) == Err::<CheckerLanguage, _>(e@),
        },
{
    let names = one_name("language");
    match get(entries, &names) {
        Err(e) => Err(e),
        Ok(None) => Ok(CheckerLanguage::C),
        Ok(Some(Yaml::Text(name))) => match CheckerLanguage::from_name(name.as_str()) {
            Some(language) => Ok(language),
            None => Err(invalid_field(&names)),
        },
        Ok(Some(_)) => Err(invalid_field(&names)),
    }
}

/// The strings of a list, if every item is one.
fn read_items(items: &Vec<Yaml>) -> (r: Option<Vec<String>>)
    ensures
        match r {
            Some(found) => all_text(items@) && texts(found@) == item_texts(items@),
            None => !all_text(items@),
        },
{
    let mut found: Vec<String> = Vec::new();
    let mut i: usize = 0;
    while i < items.len()
        invariant
            i <= items.len(),
            found@.len() == i,
            forall|j: int| 0 <= j < i ==> (#[trigger] items@[j]) is Text,
            forall|j: int| 0 <= j < i ==> (#[trigger] found@[j])@ == items@[j]->Text_0@,
        decreases items.len() - i,
    {
        match &items[i] {
            Yaml::Text(text) => {
                found.push(text.clone());
            },
            _ => {
                return None;
            },
        }
        i += 1;
    }
    assert(texts(found@) =~= item_texts(items@));
    Some(found)
}

/// Reads the field `tags`.
fn read_tags(entries: &Vec<(Yaml, Yaml)>) -> (r: Result<Vec<String>, RuleError>)
    ensures
        texts_outcome(r) == tags_field(entries@),
{
    let names = one_name("tags");
    match get(entries, &names) {
        Err(e) => Err(e),
        Ok(None) => {
            let none: Vec<String> = Vec::new();
            assert(texts(none@) =~= Seq::<Seq<char>>::empty());
            Ok(none)
        },
        Ok(Some(Yaml::List(items))) => match read_items(items) {
            Some(tags) => Ok(tags),
            None => Err(invalid_field(&names)),
        },
        Ok(Some(_)) => Err(invalid_field(&names)),
    }
}

/// Reads the constraints of a check.
fn read_regexes(entries: &Vec<(Yaml, Yaml)>) -> (r: Result<Vec<String>, RuleError>)
    ensures
        texts_outcome(r) == regexes_field(entries@),
{
    let mut names = one_name("regexes");
    add_name(&mut names, "regex");
    assert(texts(names@) =~= regex_keys());
    match get(entries, &names) {
        Err(e) => Err(e),
        Ok(None) | Ok(Some(Yaml::Null)) => {
            let none: Vec<String> = Vec::new();
            assert(texts(none@) =~= Seq::<Seq<char>>::empty());
            Ok(none)
        },
        Ok(Some(Yaml::Text(text))) => {
            let mut one: Vec<String> = Vec::new();
            one.push(text.clone());
            assert(texts(one@) =~= seq![text@]);
            Ok(one)
        },
        Ok(Some(Yaml::List(items))) => {
            if items.len() == 0 {
                return Err(invalid_field(&names));
            }
            match read_items(items) {
                Some(regexes) => Ok(regexes),
                None => Err(invalid_field(&names)),
            }
        },
        Ok(Some(_)) => Err(invalid_field(&names)),
    }
}

/// Reads one check.
pub fn read_check(node: &Yaml) -> (r: Result<CheckerDraft, RuleError>)
    ensures
        outcome(r) == check_draft(*node),
{
    let entries = match node {
        Yaml::Table(entries) => entries,
        _ => {
            return Err(RuleError::Schema(SchemaError::NotATable));
        },
    };
    let name = read_text(entries, &one_name("name"), Ok(default_check_name()))?;
    let language = read_language(entries)?;
    let pattern = read_text(
        entries,
        &one_name("pattern"),
        Err(RuleError::Check(CheckError::NoCheckPatterns)),
    )?;
    let regexes = read_regexes(entries)?;
    let limit = read_flag(entries, &one_name("limit"))?;
    let unique = read_flag(entries, &one_name("unique"))?;
    Ok(CheckerDraft { name, language, pattern, regexes, limit, unique })
}

/// Reads a list of checks.
pub fn read_checks(nodes: &Vec<Yaml>) -> (r: Result<Vec<CheckerDraft>, RuleError>)
    ensures
        drafts_outcome(r) == check_drafts(nodes@),
{
    let mut checks: Vec<CheckerDraft> = Vec::new();
    let mut i: usize = 0;
    while i < nodes.len()
        invariant
            i <= nodes.len(),
            checks@.len() == i,
            forall|j: int| 0 <= j < i ==> check_draft(#[trigger] nodes@[j]) is Ok,
            forall|j: int| 0 <= j < i ==> (#[trigger] checks@[j])@ == check_draft(nodes@[j])->Ok_0,
        decreases nodes.len() - i,
    {
        match read_check(&nodes[i]) {
            Ok(check) => {
                checks.push(check);
            },
            Err(e) => {
                proof {
                    assert(is_first_bad(nodes@, i as int));
                    let k = choose|k: int| is_first_bad(nodes@, k);
                    assert(k == i);
                }
                return Err(e);
            },
        }
        i += 1;
    }
    assert(draft_views(checks@) =~= Seq::new(
        nodes@.len(),
        |i: int| check_draft(nodes@[i])->Ok_0,
    ));
    Ok(checks)
}

/// Reads the checks of a rule.
fn read_checks_field(entries: &Vec<(Yaml, Yaml)>) -> (r: Result<Vec<CheckerDraft>, RuleError>)
    ensures
        drafts_outcome(r) == checks_field(entries@),
{
    let mut names = one_name("check patterns");
    add_name(&mut names, "check-patterns");
    add_name(&mut names, "check pattern");
    add_name(&mut names, "check-pattern");
    assert(texts(names@) =~= check_keys());
    let node = match get(entries, &names) {
        Err(e) => {
            return Err(e);
        },
        Ok(None) => {
            return Err(RuleError::NoChecks);
        },
        Ok(Some(node)) => node,
    };
    match node {
        Yaml::Table(_) => {
            let ghost alone = seq![*node];
            match read_check(node) {
                Ok(draft) => {
                    let mut one: Vec<CheckerDraft> = Vec::new();
                    one.push(draft);
                    proof {
                        assert(draft_views(one@) =~= Seq::new(
                            alone.len(),
                            |i: int| check_draft(alone[i])->Ok_0,
                        ));
                    }
                    Ok(one)
                },
                Err(e) => {
                    proof {
                        assert(is_first_bad(alone, 0));
                        let k = choose|k: int| is_first_bad(alone, k);
                        assert(k == 0);
                    }
                    Err(e)
                },
            }
        },
        Yaml::List(items) => {
            if items.len() == 0 {
                Err(RuleError::NoChecks)
            } else {
                read_checks(items)
            }
        },
        _ => Err(invalid_field(&names)),
    }
}

/// Reads a rule document.
pub fn read_rule(doc: &Yaml) -> (r: Result<RuleDraft, RuleError>)
    ensures
        outcome(r) == rule_draft(*doc),
{
    let entries = match doc {
        Yaml::Table(entries) => entries,
        _ => {
            return Err(RuleError::Schema(SchemaError::NotATable));
        },
    };
    let id = read_text(entries, &one_name("id"), Err(RuleError::NoId))?;
    let author = read_text(entries, &one_name("author"), Ok(String::new()))?;
    let description = read_text(entries, &one_name("description"), Ok(String::new()))?;
    let severity = read_severity(entries)?;
    let tags = read_tags(entries)?;
    let checks = read_checks_field(entries)?;
    Ok(RuleDraft { id, author, description, severity, tags, checks })
}

} // verus!
