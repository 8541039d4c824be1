//! Rule sets: rules under the keys that say where each came from, in the order in
//! which the keys first came.
//!
//! A set is loaded from one text, from the text of one file, or from the files that
//! were found under a directory. Of those files the ones that cannot be read or hold no
//! rule are passed over where errors are to be ignored; where they are not, the first
//! of them ends the loading with its fault.

use crate::error::{RuleError, RuleErrorView};
use crate::checker::CheckerView;
use crate::rule::{
    checker_views, file_views, load_outcome, text_outcome, FileView, Rule, RuleFile, RuleView,
};
use crate::structural::all_occur;
use crate::source::share;
use crate::text::{chars_of, copy_range, same_text};
use std::sync::Arc;
use vstd::prelude::*;

verus! {

/// A rule with its key.
#[derive(Debug, Clone)]
pub struct RuleEntry {
    key: String,
    rule: Arc<Rule>,
}

/// A [`RuleEntry`] as plain values.
pub struct EntryView {
    pub key: Seq<char>,
    pub rule: RuleView,
}

impl View for RuleEntry {
    type V = EntryView;

    closed spec fn view(&self) -> EntryView {
        EntryView { key: self.key@, rule: self.rule@ }
    }
}

/// Whether `i` is the place of the last `.` in `name`.
pub open spec fn is_last_dot(name: Seq<char>, i: int) -> bool {
    &&& 0 <= i < name.len()
    &&& name[i] == '.'
    &&& forall|j: int| i < j < name.len() ==> name[j] != '.'
}

/// The extension of a file name: what follows its last `.`, unless the name has none
/// or has its only one at the start.
pub open spec fn extension(name: Seq<char>) -> Option<Seq<char>> {
    if exists|i: int| is_last_dot(name, i) {
        let i = choose|i: int| is_last_dot(name, i);
        if i == 0 {
            None
        } else {
            Some(name.skip(i + 1))
        }
    } else {
        None
    }
}

/// Whether a file of this name is taken for a rule file: its extension is `yml` or
/// `yaml`.
pub open spec fn is_rule_file_name(name: Seq<char>) -> bool {
    extension(name) == Some("yml"@) || extension(name) == Some("yaml"@)
}

/// Whether `s` has an entry with this key at `i`.
pub open spec fn keyed_at(s: Seq<EntryView>, key: Seq<char>, i: int) -> bool {
    0 <= i < s.len() && s[i].key == key
}

/// Whether no two entries have one key.
pub open spec fn distinct_keys(s: Seq<EntryView>) -> bool {
    forall|i: int, j: int| 0 <= i < j < s.len() ==> (#[trigger] s[i]).key != (#[trigger] s[j]).key
}

/// `s` after a rule is put in under `key`: it takes the place of the rule that was
/// there under that key, or goes to the end where there was none.
pub open spec fn with_rule(s: Seq<EntryView>, key: Seq<char>, rule: RuleView) -> Seq<EntryView> {
    let entry = EntryView { key, rule };
    if exists|i: int| keyed_at(s, key, i) {
        s.update(choose|i: int| keyed_at(s, key, i), entry)
    } else {
        s.push(entry)
    }
}

/// The set that the files which load leave, later ones replacing earlier ones of the
/// same path.
pub open spec fn loaded(files: Seq<FileView>) -> Seq<EntryView>
    decreases files.len(),
{
    if files.len() == 0 {
        Seq::empty()
    } else {
        let before = loaded(files.drop_last());
        match load_outcome(files.last()) {
            Ok(rule) => with_rule(before, files.last().path, rule),
            Err(_) => before,
        }
    }
}

/// Whether `i` is the first file that does not load.
pub open spec fn is_first_failing(files: Seq<FileView>, i: int) -> bool {
    &&& 0 <= i < files.len()
    &&& load_outcome(files[i]) is Err
    &&& forall|j: int| 0 <= j < i ==> load_outcome(#[trigger] files[j]) is Ok
}

/// Whether every file loads.
pub open spec fn all_load(files: Seq<FileView>) -> bool {
    forall|i: int| 0 <= i < files.len() ==> load_outcome(#[trigger] files[i]) is Ok
}

/// What loading the files of a directory gives.
pub open spec fn directory_outcome(files: Seq<FileView>, ignore_errors: bool) -> Result<
    Seq<EntryView>,
    RuleErrorView,
> {
    if ignore_errors || all_load(files) {
        Ok(loaded(files))
    } else {
        Err(load_outcome(files[choose|i: int| is_first_failing(files, i)])->Err_0)
    }
}

/// The checks among the first `n` of a rule that can match in `source`, each as the
/// pair of the rule's place and its own.
pub open spec fn viable_checks(checks: Seq<CheckerView>, source: Seq<char>, rule_id: int, n: int) -> Seq<
    (int, int),
>
    decreases n,
{
    if n <= 0 {
        Seq::empty()
    } else if all_occur(checks[n - 1].identifiers, source) {
        viable_checks(checks, source, rule_id, n - 1).push((rule_id, n - 1))
    } else {
        viable_checks(checks, source, rule_id, n - 1)
    }
}

/// The checks of the first `n` rules that can match in `source`, rule after rule.
pub open spec fn viable(rules: Seq<EntryView>, source: Seq<char>, n: int) -> Seq<(int, int)>
    decreases n,
{
    if n <= 0 {
        Seq::empty()
    } else {
        viable(rules, source, n - 1) + viable_checks(
            rules[n - 1].rule.checks,
            source,
            n - 1,
            rules[n - 1].rule.checks.len() as int,
        )
    }
}

/// Every check that is listed can match in the source: each identifier of its pattern
/// stands in the text.
pub proof fn lemma_listed_checks_can_match(rules: Seq<EntryView>, source: Seq<char>, n: int, k: int)
    requires
        0 <= n <= rules.len(),
        0 <= k < viable(rules, source, n).len(),
    ensures
        names_check(rules, viable(rules, source, n)[k]),
        all_occur(
            rules[viable(rules, source, n)[k].0].rule.checks[viable(
                rules,
                source,
                n,
            )[k].1].identifiers,
            source,
        ),
    decreases n,
{
    let earlier = viable(rules, source, n - 1);
    if k < earlier.len() {
        lemma_listed_checks_can_match(rules, source, n - 1, k);
    } else {
        let checks = rules[n - 1].rule.checks;
        lemma_viable_checks(checks, source, n - 1, checks.len() as int, k - earlier.len());
    }
}

/// Every pair that `viable_checks` lists names a check that can match.
pub proof fn lemma_viable_checks(
    checks: Seq<CheckerView>,
    source: Seq<char>,
    rule_id: int,
    n: int,
    k: int,
)
    requires
        0 <= n <= checks.len(),
        0 <= k < viable_checks(checks, source, rule_id, n).len(),
    ensures
        viable_checks(checks, source, rule_id, n)[k].0 == rule_id,
        0 <= viable_checks(checks, source, rule_id, n)[k].1 < n,
        all_occur(
            checks[viable_checks(checks, source, rule_id, n)[k].1].identifiers,
            source,
        ),
    decreases n,
{
    let earlier = viable_checks(checks, source, rule_id, n - 1);
    if k < earlier.len() {
        lemma_viable_checks(checks, source, rule_id, n - 1, k);
    }
}

/// Every check of a rule that can match in `source` is listed.
pub proof fn lemma_viable_checks_complete(
    checks: Seq<CheckerView>,
    source: Seq<char>,
    rule_id: int,
    n: int,
    j: int,
)
    requires
        0 <= j < n <= checks.len(),
        all_occur(checks[j].identifiers, source),
    ensures
        viable_checks(checks, source, rule_id, n).contains((rule_id, j)),
    decreases n,
{
    let listed = viable_checks(checks, source, rule_id, n);
    if j == n - 1 {
        assert(listed[listed.len() - 1] == (rule_id, j));
    } else {
        lemma_viable_checks_complete(checks, source, rule_id, n - 1, j);
        let earlier = viable_checks(checks, source, rule_id, n - 1);
        let k = choose|k: int| 0 <= k < earlier.len() && earlier[k] == (rule_id, j);
        assert(listed[k] == (rule_id, j));
    }
}

/// Every check of the set that can match in `source` is listed.
pub proof fn lemma_viable_complete(rules: Seq<EntryView>, source: Seq<char>, n: int, i: int, j: int)
    requires
        0 <= i < n <= rules.len(),
        0 <= j < rules[i].rule.checks.len(),
        all_occur(rules[i].rule.checks[j].identifiers, source),
    ensures
        viable(rules, source, n).contains((i, j)),
    decreases n,
{
    let earlier = viable(rules, source, n - 1);
    let last = viable_checks(
        rules[n - 1].rule.checks,
        source,
        n - 1,
        rules[n - 1].rule.checks.len() as int,
    );
    let listed = viable(rules, source, n);
    assert(listed == earlier + last);
    if i == n - 1 {
        lemma_viable_checks_complete(
            rules[i].rule.checks,
            source,
            i,
            rules[i].rule.checks.len() as int,
            j,
        );
        let k = choose|k: int| 0 <= k < last.len() && last[k] == (i, j);
        assert(listed[earlier.len() + k] == (i, j));
    } else {
        lemma_viable_complete(rules, source, n - 1, i, j);
        let k = choose|k: int| 0 <= k < earlier.len() && earlier[k] == (i, j);
        assert(listed[k] == (i, j));
    }
}

/// Pairs of places, as integers.
pub open spec fn pair_views(pairs: Seq<(usize, usize)>) -> Seq<(int, int)> {
    pairs.map_values(|p: (usize, usize)| (p.0 as int, p.1 as int))
}

/// Whether a pair names a check of a rule of the set.
pub open spec fn names_check(rules: Seq<EntryView>, pair: (int, int)) -> bool {
    0 <= pair.0 < rules.len() && 0 <= pair.1 < rules[pair.0].rule.checks.len()
}

/// With errors ignored, loading the files of a directory does not fail.
pub proof fn lemma_ignoring_errors_loads(files: Seq<FileView>)
    ensures
        directory_outcome(files, true) == Ok::<_, RuleErrorView>(loaded(files)),
{
}

/// What one more file adds to the set that the files before it left.
pub proof fn lemma_loaded_push(files: Seq<FileView>, file: FileView)
    ensures
        loaded(files.push(file)) == match load_outcome(file) {
            Ok(rule) => with_rule(loaded(files), file.path, rule),
            Err(_) => loaded(files),
        },
{
    assert(files.push(file).drop_last() =~= files);
    assert(files.push(file).last() == file);
}

/// A rule that is put into the empty set is alone in it.
pub proof fn lemma_first_rule(key: Seq<char>, rule: RuleView)
    ensures
        with_rule(Seq::<EntryView>::empty(), key, rule) == seq![EntryView { key, rule }],
{
    let none = Seq::<EntryView>::empty();
    assert(forall|i: int| !keyed_at(none, key, i));
    assert(none.push(EntryView { key, rule }) =~= seq![EntryView { key, rule }]);
}

/// Of a file that loads and one that does not, in either order, only the first is in
/// the set where errors are ignored.
pub proof fn lemma_bad_file_is_passed_over(good: FileView, bad: FileView)
    requires
        load_outcome(good) is Ok,
        load_outcome(bad) is Err,
    ensures
        directory_outcome(seq![good, bad], true) == Ok::<_, RuleErrorView>(
            seq![EntryView { key: good.path, rule: load_outcome(good)->Ok_0 }],
        ),
        directory_outcome(seq![bad, good], true) == Ok::<_, RuleErrorView>(
            seq![EntryView { key: good.path, rule: load_outcome(good)->Ok_0 }],
        ),
{
    let none = Seq::<FileView>::empty();
    let only_good = none.push(good);
    let only_bad = none.push(bad);
    assert(loaded(none) == Seq::<EntryView>::empty());
    lemma_first_rule(good.path, load_outcome(good)->Ok_0);
    lemma_loaded_push(none, good);
    lemma_loaded_push(none, bad);
    lemma_loaded_push(only_good, bad);
    lemma_loaded_push(only_bad, good);
    assert(only_good.push(bad) =~= seq![good, bad]);
    assert(only_bad.push(good) =~= seq![bad, good]);
}

/// Of a file that loads and one that does not, in either order, the loading ends with
/// the fault of the second where errors are not ignored.
pub proof fn lemma_bad_file_ends_the_loading(good: FileView, bad: FileView)
    requires
        load_outcome(good) is Ok,
        load_outcome(bad) is Err,
    ensures
        directory_outcome(seq![good, bad], false) == Err::<Seq<EntryView>, _>(
            load_outcome(bad)->Err_0,
        ),
        directory_outcome(seq![bad, good], false) == Err::<Seq<EntryView>, _>(
            load_outcome(bad)->Err_0,
        ),
{
    let first = seq![good, bad];
    let second = seq![bad, good];
    assert(first[1] == bad && first[0] == good);
    assert(second[0] == bad && second[1] == good);
    assert(is_first_failing(first, 1));
    assert(is_first_failing(second, 0));
    let a = choose|i: int| is_first_failing(first, i);
    assert(a == 1);
    let b = choose|i: int| is_first_failing(second, i);
    assert(b == 0);
    assert(!all_load(first));
    assert(!all_load(second));
}

/// A set of rules.
#[derive(Debug)]
pub struct RuleSet {
    entries: Vec<RuleEntry>,
}

impl View for RuleSet {
    type V = Seq<EntryView>;

    closed spec fn view(&self) -> Seq<EntryView> {
        self.entries@.map_values(|e: RuleEntry| e@)
    }
}

impl Clone for RuleSet {
    /// A second set of the same rules, which are shared and not copied.
    fn clone(&self) -> (r: RuleSet)
        ensures
            r@ == self@,
    {
        proof {
            use_type_invariant(self);
        }
        let mut entries: Vec<RuleEntry> = Vec::new();
        let mut i: usize = 0;
        while i < self.entries.len()
            invariant
                i <= self.entries.len(),
                entries@.len() == i,
                forall|j: int| 0 <= j < i ==> (#[trigger] entries@[j])@ == self@[j],
            decreases self.entries.len() - i,
        {
            let entry = &self.entries[i];
            entries.push(RuleEntry { key: entry.key.clone(), rule: share(&entry.rule) });
            i += 1;
        }
        assert(entries@.map_values(|e: RuleEntry| e@) =~= self@);
        RuleSet { entries }
    }
}

/// What a result that holds a rule set says, as plain values.
pub open spec fn set_outcome(r: Result<RuleSet, RuleError>) -> Result<
    Seq<EntryView>,
    RuleErrorView,
> {
    match r {
        Ok(set) => Ok(set@),
        Err(e) => Err(e@),
    }
}

/// Whether a file of this name is taken for a rule file.
pub fn is_rule_file(name: &str) -> (b: bool)
    ensures
        b == is_rule_file_name(name@),
{
    let chars = chars_of(name);
    let n = chars.len();
    let mut i: usize = n;
    while i > 0 && chars[i - 1] != '.'
        invariant
            i <= n == chars.len(),
            forall|j: int| i <= j < n ==> chars@[j] != '.',
        decreases i,
    {
        i -= 1;
    }
    if i == 0 {
        assert(!(exists|k: int| is_last_dot(name@, k))) by {
            if exists|k: int| is_last_dot(name@, k) {
                let k = choose|k: int| is_last_dot(name@, k);
                assert(chars@[k] == '.');
            }
        }
        return false;
    }
    proof {
        assert(is_last_dot(name@, i - 1));
        let k = choose|k: int| is_last_dot(name@, k);
        assert(k == i - 1) by {
            if k < i - 1 {
                assert(name@[i - 1] != '.');
            } else if k > i - 1 {
                assert(chars@[k] != '.');
            }
        }
    }
    if i == 1 {
        return false;
    }
    let found = copy_range(name, i, n);
    assert(found@ == name@.skip(i as int));
    same_text(found.as_str(), "yml") || same_text(found.as_str(), "yaml")
}

impl RuleSet {
    #[verifier::type_invariant]
    spec fn well_formed(self) -> bool {
        distinct_keys(self@)
    }

    /// The empty set.
    pub fn new() -> (r: RuleSet)
        ensures
            r@ == Seq::<EntryView>::empty(),
    {
        let r = RuleSet { entries: Vec::new() };
        assert(r@ =~= Seq::<EntryView>::empty());
        r
    }

    /// Where the rule under `key` stands, if there is one.
    fn position(&self, key: &str) -> (r: Option<usize>)
        ensures
            match r {
                Some(i) => keyed_at(self@, key@, i as int),
                None => forall|j: int| !keyed_at(self@, key@, j),
            },
    {
        let mut i: usize = 0;
        while i < self.entries.len()
            invariant
                i <= self.entries.len(),
                forall|j: int| 0 <= j < i ==> !keyed_at(self@, key@, j),
            decreases self.entries.len() - i,
        {
            if same_text(self.entries[i].key.as_str(), key) {
                return Some(i);
            }
            i += 1;
        }
        None
    }

    /// Puts a rule in under `key`. A rule that is there under that key is replaced.
    pub fn insert(self, key: String, rule: Rule) -> (r: RuleSet)
        ensures
            r@ == with_rule(self@, key@, rule@),
    {
        proof {
            use_type_invariant(&self);
        }
        let ghost before = self@;
        let found = self.position(key.as_str());
        let entry = RuleEntry { key, rule: Arc::new(rule) };
        let ghost added = entry@;
        let mut entries = self.entries;
        match found {
            Some(i) => {
                entries.set(i, entry);
                proof {
                    let after = entries@.map_values(|e: RuleEntry| e@);
                    let k = choose|k: int| keyed_at(before, added.key, k);
                    assert(k == i) by {
                        if k < i {
                            assert(before[k].key != before[i as int].key);
                        } else if i < k {
                            assert(before[i as int].key != before[k].key);
                        }
                    }
                    assert(after =~= before.update(i as int, added));
                    assert forall|a: int, b: int| 0 <= a < b < after.len() implies (
                    #[trigger] after[a]).key != (#[trigger] after[b]).key by {
                        assert(before[a].key != before[b].key);
                    }
                }
                RuleSet { entries }
            },
            None => {
                entries.push(entry);
                proof {
                    let after = entries@.map_values(|e: RuleEntry| e@);
                    assert(after =~= before.push(added));
                    assert forall|a: int, b: int| 0 <= a < b < after.len() implies (
                    #[trigger] after[a]).key != (#[trigger] after[b]).key by {
                        if b < before.len() {
                            assert(before[a].key != before[b].key);
                        } else {
                            assert(!keyed_at(before, added.key, a));
                        }
                    }
                }
                RuleSet { entries }
            },
        }
    }

    /// The set of the one rule that `rule` writes, under the key `default`.
    pub fn from_str(rule: &str) -> (r: Result<RuleSet, RuleError>)
        ensures
            set_outcome(r) == match text_outcome(rule@) {
                Ok(loaded) => Ok::<Seq<EntryView>, RuleErrorView>(
                    seq![EntryView { key: "default"@, rule: loaded }],
                ),
                Err(e) => Err(e),
            },
    {
        match Rule::from_str(rule) {
            Ok(loaded) => {
                let set = RuleSet::new().insert("default".to_owned(), loaded);
                assert(set@ =~= seq![EntryView { key: "default"@, rule: loaded@ }]);
                Ok(set)
            },
            Err(e) => Err(e),
        }
    }

    /// The set of the one rule that a file holds, under the path of the file.
    pub fn from_file(file: &RuleFile) -> (r: Result<RuleSet, RuleError>)
        ensures
            set_outcome(r) == match load_outcome(file@) {
                Ok(loaded) => Ok::<Seq<EntryView>, RuleErrorView>(
                    seq![EntryView { key: file@.path, rule: loaded }],
                ),
                Err(e) => Err(e),
            },
    {
        match Rule::from_file(file) {
            Ok(loaded) => {
                let set = RuleSet::new().insert(file.path.clone(), loaded);
                assert(set@ =~= seq![EntryView { key: file@.path, rule: loaded@ }]);
                Ok(set)
            },
            Err(e) => Err(e),
        }
    }

    /// The set of the rules that the files found under a directory hold, each under the
    /// path of its file.
    pub fn from_directory(files: &Vec<RuleFile>, ignore_errors: bool) -> (r: Result<
        RuleSet,
        RuleError,
    >)
        ensures
            set_outcome(r) == directory_outcome(file_views(files@), ignore_errors),
    {
        let ghost all = file_views(files@);
        let mut set = RuleSet::new();
        let mut i: usize = 0;
        proof {
            assert(all.take(0) =~= Seq::<FileView>::empty());
        }
        while i < files.len()
            invariant
                i <= files.len(),
                all == file_views(files@),
                all.len() == files.len(),
                set@ == loaded(all.take(i as int)),
                !ignore_errors ==> forall|j: int| 0 <= j < i ==> load_outcome(#[trigger] all[j]) is Ok,
            decreases files.len() - i,
        {
            let file = &files[i];
            assert(all[i as int] == file@);
            proof {
                let next = all.take(i as int + 1);
                assert(next.drop_last() =~= all.take(i as int));
                assert(next.last() == all[i as int]);
            }
            match Rule::from_file(file) {
                Ok(rule) => {
                    set = set.insert(file.path.clone(), rule);
                },
                Err(e) => {
                    if !ignore_errors {
                        proof {
                            assert(is_first_failing(all, i as int));
                            let k = choose|k: int| is_first_failing(all, k);
                            assert(k == i);
                            assert(!all_load(all));
                        }
                        return Err(e);
                    }
                },
            }
            i += 1;
        }
        proof {
            assert(all.take(i as int) =~= all);
            if !ignore_errors {
                assert(all_load(all));
            }
        }
        Ok(set)
    }

    /// The checks of the set that can match in `source`: those whose identifiers all
    /// stand in it. Each is given as the place of its rule in the set and its own place
    /// in the rule, rule after rule and check after check.
    pub fn viable_checkers(&self, source: &str) -> (r: Vec<(usize, usize)>)
        ensures
            pair_views(r@) == viable(self@, source@, self@.len() as int),
            forall|k: int| 0 <= k < r@.len() ==> names_check(self@, #[trigger] pair_views(r@)[k]),
    {
        let mut pairs: Vec<(usize, usize)> = Vec::new();
        let mut i: usize = 0;
        proof {
            assert(pair_views(pairs@) =~= viable(self@, source@, 0));
        }
        while i < self.entries.len()
            invariant
                i <= self.entries.len(),
                pair_views(pairs@) == viable(self@, source@, i as int),
                forall|k: int|
                    0 <= k < pairs@.len() ==> names_check(self@, #[trigger] pair_views(pairs@)[k]),
            decreases self.entries.len() - i,
        {
            let checks = self.rule(i).checks();
            let ghost views = self@[i as int].rule.checks;
            let ghost before = pair_views(pairs@);
            let mut j: usize = 0;
            proof {
                assert(before + viable_checks(views, source@, i as int, 0) =~= before);
            }
            while j < checks.len()
                invariant
                    i < self.entries.len(),
                    j <= checks.len(),
                    views == self@[i as int].rule.checks,
                    checker_views(checks@) == views,
                    pair_views(pairs@) == before + viable_checks(views, source@, i as int, j as int),
                    forall|k: int|
                        0 <= k < pairs@.len() ==> names_check(
                            self@,
                            #[trigger] pair_views(pairs@)[k],
                        ),
                decreases checks.len() - j,
            {
                let ghost old_pairs = pair_views(pairs@);
                assert(checks@[j as int]@ == views[j as int]);
                if checks[j].can_match(source) {
                    pairs.push((i, j));
                    proof {
                        assert(pair_views(pairs@) =~= old_pairs.push((i as int, j as int)));
                        assert(pair_views(pairs@) =~= before + viable_checks(
                            views,
                            source@,
                            i as int,
                            j as int + 1,
                        ));
                    }
                }
                j += 1;
            }
            i += 1;
        }
        pairs
    }

    /// Whether the set holds no rule.
    pub fn is_empty(&self) -> (b: bool)
        ensures
            b == (self@.len() == 0),
    {
        self.entries.len() == 0
    }

    /// The number of rules.
    pub fn len(&self) -> (n: usize)
        ensures
            n == self@.len(),
    {
        self.entries.len()
    }

    /// The key at `i`.
    pub fn key(&self, i: usize) -> (r: &str)
        requires
            i < self@.len(),
        ensures
            r@ == self@[i as int].key,
    {
        self.entries[i].key.as_str()
    }

    /// The rule at `i`.
    pub fn rule(&self, i: usize) -> (r: &Rule)
        requires
            i < self@.len(),
        ensures
            r@ == self@[i as int].rule,
    {
        &self.entries[i].rule
    }

    /// The rule at `i`, shared.
    pub fn shared_rule(&self, i: usize) -> (r: Arc<Rule>)
        requires
            i < self@.len(),
        ensures
            r@ == self@[i as int].rule,
    {
        share(&self.entries[i].rule)
    }

    /// The keys with their rules, in the order of the set.
    pub fn iter(&self) -> (r: Vec<(&str, &Rule)>)
        ensures
            r@.len() == self@.len(),
            forall|i: int|
                0 <= i < r@.len() ==> (#[trigger] r@[i]).0@ == self@[i].key && r@[i].1@
                    == self@[i].rule,
    {
        let mut pairs: Vec<(&str, &Rule)> = Vec::new();
        let mut i: usize = 0;
        while i < self.entries.len()
            invariant
                i <= self.entries.len(),
                pairs@.len() == i,
                forall|j: int|
                    0 <= j < i ==> (#[trigger] pairs@[j]).0@ == self@[j].key && pairs@[j].1@
                        == self@[j].rule,
            decreases self.entries.len() - i,
        {
            pairs.push((self.key(i), self.rule(i)));
            i += 1;
        }
        pairs
    }
}

} // verus!
