//! Structural matches as the query engine reports them, and the two policies that
//! thin them out.
//!
//! `unique` keeps a match only where one of the values it captures was captured by no
//! earlier match of the same pass. `limit` keeps a match only where no earlier match
//! that passed `unique` starts at the same offset. Both look at the matches in the order
//! in which the engine gave them, and neither changes that order.

use crate::pattern::{query_identifiers, Pattern, PatternView};
use crate::source::{share, ParsedSource};
use crate::text::{holds, holds_text, occurs_in, same_text};
use std::sync::Arc;
use vstd::prelude::*;
use vstd::utf8::encode_utf8;

verus! {

/// One match as the `weggli` crate reports it, carried through without inspection.
#[verifier::external_type_specification]
#[verifier::external_body]
pub struct ExQueryResult(weggli::result::QueryResult);

/// A query variable with the text that it captured.
#[derive(Debug, Clone)]
pub struct Binding {
    pub name: String,
    pub value: String,
}

/// A structural match as values: the byte offset at which it starts, the pairs of
/// variable and captured text, and the engine's own record of the match.
pub struct MatchView {
    pub start_offset: nat,
    pub bindings: Set<(Seq<char>, Seq<char>)>,
    pub record: weggli::result::QueryResult,
}

/// The pairs of variable and captured text in a list of bindings.
pub open spec fn binding_pairs(bindings: Seq<Binding>) -> Set<(Seq<char>, Seq<char>)> {
    bindings.map_values(|b: Binding| (b.name@, b.value@)).to_set()
}

/// A structural match: where it starts and what its variables captured, beside the
/// engine's own record of it, which is shared with the reports of the match.
#[derive(Debug)]
pub struct StructuralMatch {
    start_offset: usize,
    bindings: Vec<Binding>,
    result: Arc<weggli::result::QueryResult>,
}

impl View for StructuralMatch {
    type V = MatchView;

    closed spec fn view(&self) -> MatchView {
        MatchView {
            start_offset: self.start_offset as nat,
            bindings: binding_pairs(self.bindings@),
            record: *self.result,
        }
    }
}

/// The views of a list of matches.
pub open spec fn match_views(matches: Seq<StructuralMatch>) -> Seq<MatchView> {
    matches.map_values(|m: StructuralMatch| m@)
}

/// The matches that the query of `weggli` for `pattern` finds in the tree of `source`,
/// parsed as C++ where `cxx` is set, in the engine's order, each with the record that
/// the engine makes of it.
pub uninterp spec fn query_matches(pattern: PatternView, source: Seq<char>, cxx: bool) -> Seq<
    MatchView,
>;

/// Whether each of `identifiers` stands somewhere in `source`, byte for byte.
pub open spec fn all_occur(identifiers: Seq<Seq<char>>, source: Seq<char>) -> bool {
    forall|i: int|
        0 <= i < identifiers.len() ==> occurs_in(
            encode_utf8(source),
            encode_utf8(#[trigger] identifiers[i]),
        )
}

/// Calls `QueryTree::matches` on the root of the source's tree, and turns each
/// `QueryResult` into a match: its `start_offset`, for each key of its `vars` the text
/// that `QueryResult::value` gives for it, and the `QueryResult` itself.
///
/// The second clause is what `QueryTree::identifiers` is for: the engine gives a match
/// only where every identifier of the query is the text of some node of the tree, so a
/// source in which there is a match holds them all. The engine compares a node with the
/// identifier as its query holds it, between double quotes; that is the identifier
/// itself where it holds no double quote, no backslash and no line break, which
/// `requires` asks of every one.
#[verifier::external_body]
fn run_query(pattern: &Pattern, source: &ParsedSource) -> (r: Vec<StructuralMatch>)
    requires
        pattern.well_formed(),
        source.well_formed(),
    ensures
        match_views(r@) == query_matches(pattern@, source@.text, source@.cxx),
        r@.len() > 0 ==> all_occur(
            query_identifiers(pattern@.text, pattern@.cxx),
            source@.text,
        ),
{
    let found = pattern.query().matches(source.tree().root_node(), source.text());
    found.into_iter().map(
        |m| StructuralMatch {
            start_offset: m.start_offset(),
            bindings: m.vars.keys().map(
                |k| Binding {
                    name: k.clone(),
                    value: m.value(k, source.text()).unwrap_or_default().to_string(),
                },
            ).collect(),
            result: Arc::new(m),
        },
    ).collect()
}

/// All structural matches of a pattern in a parsed source, in the engine's order.
///
/// Where there is a match, the source holds every identifier of the pattern: a source
/// that lacks one can be passed over without being parsed.
pub fn structural_matches(pattern: &Pattern, source: &ParsedSource) -> (r: Vec<StructuralMatch>)
    ensures
        match_views(r@) == query_matches(pattern@, source@.text, source@.cxx),
        r@.len() > 0 ==> all_occur(
            query_identifiers(pattern@.text, pattern@.cxx),
            source@.text,
        ),
{
    proof {
        use_type_invariant(pattern);
        use_type_invariant(source);
    }
    run_query(pattern, source)
}

impl StructuralMatch {
    /// The record that the engine made of the match.
    pub open spec fn engine_record(&self) -> weggli::result::QueryResult {
        self@.record
    }

    /// The byte offset in the source at which the match starts.
    pub fn start_offset(&self) -> (r: usize)
        ensures
            r == self@.start_offset,
    {
        self.start_offset
    }

    /// The variables of the match with the texts they captured.
    pub fn bindings(&self) -> (r: &Vec<Binding>)
        ensures
            binding_pairs(r@) == self@.bindings,
    {
        &self.bindings
    }

    /// The text that `name` captured: that of the first binding of that name.
    pub fn value(&self, name: &str) -> (r: Option<&str>)
        ensures
            match r {
                Some(value) => self@.bindings.contains((name@, value@)),
                None => forall|value: Seq<char>| !self@.bindings.contains((name@, value)),
            },
    {
        let ghost pairs = self.bindings@.map_values(|b: Binding| (b.name@, b.value@));
        let mut i: usize = 0;
        while i < self.bindings.len()
            invariant
                i <= self.bindings.len(),
                pairs == self.bindings@.map_values(|b: Binding| (b.name@, b.value@)),
                forall|j: int| 0 <= j < i ==> self.bindings@[j].name@ != name@,
            decreases self.bindings.len() - i,
        {
            if same_text(self.bindings[i].name.as_str(), name) {
                assert(pairs[i as int] == (name@, self.bindings@[i as int].value@));
                return Some(self.bindings[i].value.as_str());
            }
            i += 1;
        }
        assert forall|value: Seq<char>| !self@.bindings.contains((name@, value)) by {
            if pairs.contains((name@, value)) {
                let j = choose|j: int| 0 <= j < pairs.len() && pairs[j] == (name@, value);
                assert(self.bindings@[j].name@ == name@);
            }
        }
        None
    }

    /// What the two policies read of the match.
    pub fn key(&self) -> (r: MatchKey)
        ensures
            r@ == key_of(self@),
    {
        let ghost pairs = self.bindings@.map_values(|b: Binding| (b.name@, b.value@));
        let mut values: Vec<String> = Vec::new();
        let mut i: usize = 0;
        while i < self.bindings.len()
            invariant
                i <= self.bindings.len(),
                pairs == self.bindings@.map_values(|b: Binding| (b.name@, b.value@)),
                values@.len() == i,
                forall|j: int| 0 <= j < i ==> (#[trigger] values@[j])@ == pairs[j].1,
            decreases self.bindings.len() - i,
        {
            values.push(self.bindings[i].value.clone());
            i += 1;
        }
        let r = MatchKey { start_offset: self.start_offset, values };
        proof {
            let got = r@.values;
            let want = captured_values(self@.bindings);
            assert forall|v: Seq<char>| got.contains(v) <==> want.contains(v) by {
                if holds(r.values@, v) {
                    let j = choose|j: int| 0 <= j < r.values@.len() && (#[trigger] r.values@[j])@ == v;
                    assert(pairs[j].1 == v);
                    assert(pairs.contains(pairs[j]));
                    assert(self@.bindings.contains((pairs[j].0, v)));
                }
                if want.contains(v) {
                    let name = choose|name: Seq<char>| self@.bindings.contains((name, v));
                    let j = choose|j: int| 0 <= j < pairs.len() && pairs[j] == (name, v);
                    assert(r.values@[j]@ == v);
                }
            }
            assert(got =~= want);
        }
        r
    }

    /// The engine's own record of the match.
    pub fn result(&self) -> (r: &weggli::result::QueryResult)
        ensures
            *r == self.engine_record(),
    {
        &self.result
    }

    /// The engine's record of the match, shared.
    pub fn shared_result(&self) -> (r: Arc<weggli::result::QueryResult>)
        ensures
            *r == self.engine_record(),
    {
        share(&self.result)
    }

    /// Gives the engine's record of the match up.
    pub fn into_result(self) -> (r: Arc<weggli::result::QueryResult>)
        ensures
            *r == self.engine_record(),
    {
        self.result
    }
}

/// The texts that a set of bindings captured.
pub open spec fn captured_values(bindings: Set<(Seq<char>, Seq<char>)>) -> Set<Seq<char>> {
    Set::new(|v: Seq<char>| exists|name: Seq<char>| bindings.contains((name, v)))
}

/// What the two policies read of a match: where it starts and which texts it captured.
#[derive(Debug)]
pub struct MatchKey {
    pub start_offset: usize,
    pub values: Vec<String>,
}

/// A [`MatchKey`] as plain values.
pub struct KeyView {
    pub start_offset: nat,
    pub values: Set<Seq<char>>,
}

impl View for MatchKey {
    type V = KeyView;

    open spec fn view(&self) -> KeyView {
        KeyView {
            start_offset: self.start_offset as nat,
            values: Set::new(|v: Seq<char>| holds(self.values@, v)),
        }
    }
}

/// The key of a match.
pub open spec fn key_of(m: MatchView) -> KeyView {
    KeyView { start_offset: m.start_offset, values: captured_values(m.bindings) }
}

/// The keys of a list of matches.
pub open spec fn keys_of(matches: Seq<MatchView>) -> Seq<KeyView> {
    matches.map_values(|m: MatchView| key_of(m))
}

/// The views of a list of keys.
pub open spec fn key_views(keys: Seq<MatchKey>) -> Seq<KeyView> {
    keys.map_values(|k: MatchKey| k@)
}

/// Whether a match before `i` captured the text `v`.
pub open spec fn seen_before(keys: Seq<KeyView>, i: int, v: Seq<char>) -> bool {
    exists|j: int| 0 <= j < i && (#[trigger] keys[j]).values.contains(v)
}

/// Whether the match at `i` captured a text that no earlier match captured. A match
/// that captured nothing has no such text.
pub open spec fn is_novel(keys: Seq<KeyView>, i: int) -> bool {
    exists|v: Seq<char>| keys[i].values.contains(v) && !seen_before(keys, i, v)
}

/// Whether the match at `i` passes the policy `unique`.
pub open spec fn passes_unique(unique: bool, keys: Seq<KeyView>, i: int) -> bool {
    !unique || is_novel(keys, i)
}

/// Whether a match before `i` that passed `unique` starts at `offset`.
pub open spec fn offset_taken(unique: bool, keys: Seq<KeyView>, i: int, offset: nat) -> bool {
    exists|j: int|
        0 <= j < i && passes_unique(unique, keys, j) && (#[trigger] keys[j]).start_offset
            == offset
}

/// Whether the match at `i` passes the policy `limit`.
pub open spec fn passes_limit(unique: bool, limit: bool, keys: Seq<KeyView>, i: int) -> bool {
    !limit || !offset_taken(unique, keys, i, keys[i].start_offset)
}

/// Whether the match at `i` is kept.
pub open spec fn keeps(unique: bool, limit: bool, keys: Seq<KeyView>, i: int) -> bool {
    passes_unique(unique, keys, i) && passes_limit(unique, limit, keys, i)
}

/// The first `n` of `items`, without those whose flag is unset.
pub open spec fn retained<T>(items: Seq<T>, flags: Seq<bool>, n: int) -> Seq<T>
    decreases n,
{
    if n <= 0 {
        Seq::empty()
    } else if flags[n - 1] {
        retained(items, flags, n - 1).push(items[n - 1])
    } else {
        retained(items, flags, n - 1)
    }
}

/// For each match whether it is kept.
pub open spec fn keep_flags(unique: bool, limit: bool, keys: Seq<KeyView>) -> Seq<bool> {
    Seq::new(keys.len(), |i: int| keeps(unique, limit, keys, i))
}

/// The matches that the two policies keep, in their order.
pub open spec fn kept_matches(unique: bool, limit: bool, matches: Seq<MatchView>) -> Seq<
    MatchView,
> {
    retained(matches, keep_flags(unique, limit, keys_of(matches)), matches.len() as int)
}

proof fn lemma_holds_push(values: Seq<String>, x: String, v: Seq<char>)
    ensures
        holds(values.push(x), v) <==> (holds(values, v) || x@ == v),
{
    let grown = values.push(x);
    if holds(values, v) {
        let j = choose|j: int| 0 <= j < values.len() && (#[trigger] values[j])@ == v;
        assert(grown[j]@ == v);
    }
    if x@ == v {
        assert(grown[values.len() as int]@ == v);
    }
    if holds(grown, v) {
        let j = choose|j: int| 0 <= j < grown.len() && (#[trigger] grown[j])@ == v;
        if j < values.len() {
            assert(values[j]@ == v);
        }
    }
}

proof fn lemma_seen_step(keys: Seq<KeyView>, i: int, v: Seq<char>)
    requires
        0 <= i < keys.len(),
    ensures
        seen_before(keys, i + 1, v) <==> (seen_before(keys, i, v) || keys[i].values.contains(v)),
{
    if seen_before(keys, i, v) {
        let j = choose|j: int| 0 <= j < i && (#[trigger] keys[j]).values.contains(v);
        assert(0 <= j < i + 1 && keys[j].values.contains(v));
    }
    if keys[i].values.contains(v) {
        assert(0 <= i < i + 1 && keys[i].values.contains(v));
    }
    if seen_before(keys, i + 1, v) {
        let j = choose|j: int| 0 <= j < i + 1 && (#[trigger] keys[j]).values.contains(v);
        if j < i {
            assert(seen_before(keys, i, v));
        }
    }
}

proof fn lemma_taken_step(unique: bool, keys: Seq<KeyView>, i: int, offset: nat)
    requires
        0 <= i < keys.len(),
    ensures
        offset_taken(unique, keys, i + 1, offset) <==> (offset_taken(unique, keys, i, offset) || (
        passes_unique(unique, keys, i) && keys[i].start_offset == offset)),
{
    if offset_taken(unique, keys, i, offset) {
        let j = choose|j: int|
            0 <= j < i && passes_unique(unique, keys, j) && (#[trigger] keys[j]).start_offset
                == offset;
        assert(0 <= j < i + 1 && keys[j].start_offset == offset);
    }
    if passes_unique(unique, keys, i) && keys[i].start_offset == offset {
        assert(0 <= i < i + 1 && keys[i].start_offset == offset);
    }
    if offset_taken(unique, keys, i + 1, offset) {
        let j = choose|j: int|
            0 <= j < i + 1 && passes_unique(unique, keys, j) && (#[trigger] keys[j]).start_offset
                == offset;
        if j < i {
            assert(offset_taken(unique, keys, i, offset));
        }
    }
}

/// Whether `offsets` holds `offset`.
fn holds_offset(offsets: &Vec<usize>, offset: usize) -> (b: bool)
    ensures
        b == offsets@.contains(offset),
{
    let mut i: usize = 0;
    while i < offsets.len()
        invariant
            i <= offsets.len(),
            forall|j: int| 0 <= j < i ==> offsets@[j] != offset,
        decreases offsets.len() - i,
    {
        if offsets[i] == offset {
            return true;
        }
        i += 1;
    }
    false
}

/// Adds to `seen` the texts of `values` that it does not hold yet, and says whether
/// there was one.
fn note_values(seen: &mut Vec<String>, values: &Vec<String>) -> (novel: bool)
    ensures
        novel <==> exists|v: Seq<char>| holds(values@, v) && !holds(old(seen)@, v),
        forall|v: Seq<char>| holds(final(seen)@, v) <==> (holds(old(seen)@, v) || holds(values@, v)),
{
    let ghost before = seen@;
    let mut novel = false;
    let mut k: usize = 0;
    while k < values.len()
        invariant
            k <= values.len(),
            novel <==> exists|j: int| 0 <= j < k && !holds(before, (#[trigger] values@[j])@),
            forall|v: Seq<char>|
                holds(seen@, v) <==> (holds(before, v) || holds(values@.take(k as int), v)),
        decreases values.len() - k,
    {
        let value = &values[k];
        let ghost now = seen@;
        let ghost done = values@.take(k as int);
        let known = holds_text(seen, value.as_str());
        if !known {
            novel = true;
            seen.push(value.clone());
        }
        k += 1;
        proof {
            assert(values@.take(k as int) =~= done.push(*value));
            if known {
                assert(seen@ == now);
            } else {
                assert(seen@ =~= now.push(*value));
            }
            assert forall|v: Seq<char>|
                holds(seen@, v) <==> (holds(before, v) || holds(values@.take(k as int), v)) by {
                assert(holds(now, v) <==> (holds(before, v) || holds(done, v)));
                lemma_holds_push(done, *value, v);
                if !known {
                    lemma_holds_push(now, *value, v);
                }
            }
            if known && !holds(before, value@) {
                let j = choose|j: int| 0 <= j < done.len() && (#[trigger] done[j])@ == value@;
                assert(values@[j]@ == value@);
            }
            if !known {
                assert(!holds(before, values@[k - 1]@));
            }
        }
    }
    proof {
        assert(values@.take(k as int) =~= values@);
        if novel {
            let j = choose|j: int| 0 <= j < k && !holds(before, (#[trigger] values@[j])@);
            assert(holds(values@, values@[j]@));
        }
        if exists|v: Seq<char>| holds(values@, v) && !holds(before, v) {
            let v = choose|v: Seq<char>| holds(values@, v) && !holds(before, v);
            let j = choose|j: int| 0 <= j < values@.len() && (#[trigger] values@[j])@ == v;
            assert(!holds(before, values@[j]@));
        }
    }
    novel
}

/// Says of each match, by its key, whether the two policies keep it.
///
/// With neither policy every match is kept.
pub fn select(unique: bool, limit: bool, keys: &Vec<MatchKey>) -> (flags: Vec<bool>)
    ensures
        flags@ == keep_flags(unique, limit, key_views(keys@)),
{
    let ghost all = key_views(keys@);
    let mut flags: Vec<bool> = Vec::new();
    let mut seen_values: Vec<String> = Vec::new();
    let mut seen_offsets: Vec<usize> = Vec::new();
    let mut i: usize = 0;
    while i < keys.len()
        invariant
            i <= keys.len(),
            all == key_views(keys@),
            all.len() == keys.len(),
            flags@.len() == i,
            forall|j: int| 0 <= j < i ==> flags@[j] == keeps(unique, limit, all, j),
            forall|v: Seq<char>| holds(seen_values@, v) <==> seen_before(all, i as int, v),
            forall|o: usize|
                seen_offsets@.contains(o) <==> offset_taken(unique, all, i as int, o as nat),
        decreases keys.len() - i,
    {
        let key = &keys[i];
        let ghost values_before = seen_values@;
        let ghost offsets_before = seen_offsets@;
        assert(all[i as int] == key@);
        let novel = note_values(&mut seen_values, &key.values);
        proof {
            if novel {
                let v = choose|v: Seq<char>| holds(key.values@, v) && !holds(values_before, v);
                assert(all[i as int].values.contains(v) && !seen_before(all, i as int, v));
            }
            if is_novel(all, i as int) {
                let v = choose|v: Seq<char>|
                    all[i as int].values.contains(v) && !seen_before(all, i as int, v);
                assert(holds(key.values@, v) && !holds(values_before, v));
            }
            assert forall|v: Seq<char>|
                holds(seen_values@, v) <==> seen_before(all, i as int + 1, v) by {
                lemma_seen_step(all, i as int, v);
            }
        }
        let passes = !unique || novel;
        let mut keep = passes;
        if passes {
            let taken = holds_offset(&seen_offsets, key.start_offset);
            if limit && taken {
                keep = false;
            }
            if !taken {
                seen_offsets.push(key.start_offset);
            }
        }
        proof {
            assert(passes == passes_unique(unique, all, i as int));
            assert forall|o: usize|
                seen_offsets@.contains(o) <==> offset_taken(
                    unique,
                    all,
                    i as int + 1,
                    o as nat,
                ) by {
                lemma_taken_step(unique, all, i as int, o as nat);
                if offsets_before.contains(o) {
                    let m = choose|m: int| 0 <= m < offsets_before.len() && offsets_before[m] == o;
                    assert(seen_offsets@[m] == o);
                }
                if seen_offsets@.contains(o) {
                    let m = choose|m: int| 0 <= m < seen_offsets@.len() && seen_offsets@[m] == o;
                    if m < offsets_before.len() {
                        assert(offsets_before[m] == o);
                    }
                }
                if passes && key.start_offset == o && !offsets_before.contains(o) {
                    assert(seen_offsets@[offsets_before.len() as int] == o);
                }
            }
            assert(keep == keeps(unique, limit, all, i as int));
        }
        flags.push(keep);
        i += 1;
    }
    assert(flags@ =~= keep_flags(unique, limit, all));
    flags
}

/// Where every flag is set, `retained` gives the items back.
pub proof fn lemma_retained_all<T>(items: Seq<T>, flags: Seq<bool>, n: int)
    requires
        0 <= n <= items.len(),
        forall|i: int| 0 <= i < n ==> flags[i],
    ensures
        retained(items, flags, n) == items.take(n),
    decreases n,
{
    if n > 0 {
        lemma_retained_all(items, flags, n - 1);
        assert(items.take(n) =~= items.take(n - 1).push(items[n - 1]));
    } else {
        assert(items.take(0) =~= Seq::<T>::empty());
    }
}

/// With neither policy every match is kept, in the engine's order.
pub proof fn lemma_no_policy_keeps_all(matches: Seq<MatchView>)
    ensures
        kept_matches(false, false, matches) == matches,
{
    let flags = keep_flags(false, false, keys_of(matches));
    lemma_retained_all(matches, flags, matches.len() as int);
    assert(matches.take(matches.len() as int) =~= matches);
}

/// Under `limit`, of two matches that start at one offset the later is not kept where
/// the earlier passed `unique`: at most one match survives for each start offset, and
/// it is the first.
pub proof fn lemma_limit_keeps_the_first(unique: bool, keys: Seq<KeyView>, i: int, j: int)
    requires
        0 <= i < j < keys.len(),
        keys[i].start_offset == keys[j].start_offset,
        passes_unique(unique, keys, i),
    ensures
        !keeps(unique, true, keys, j),
{
    assert(offset_taken(unique, keys, j, keys[j].start_offset));
}

/// Under `unique`, a match is kept or not by its captured texts alone: one of which
/// every text was captured by an earlier match is not kept, and one with a text that
/// no earlier match captured passes the policy.
pub proof fn lemma_unique_asks_for_a_new_text(keys: Seq<KeyView>, i: int)
    requires
        0 <= i < keys.len(),
    ensures
        (forall|v: Seq<char>| keys[i].values.contains(v) ==> seen_before(keys, i, v))
            ==> !passes_unique(true, keys, i),
        (exists|v: Seq<char>| keys[i].values.contains(v) && !seen_before(keys, i, v))
            ==> passes_unique(true, keys, i),
{
}

/// What is retained of a list of matches has the views that are retained of the views
/// of the list.
pub proof fn lemma_retained_views(items: Seq<StructuralMatch>, flags: Seq<bool>, n: int)
    requires
        0 <= n <= items.len(),
    ensures
        match_views(retained(items, flags, n)) == retained(match_views(items), flags, n),
    decreases n,
{
    if n > 0 {
        lemma_retained_views(items, flags, n - 1);
        let before = retained(items, flags, n - 1);
        assert(match_views(items)[n - 1] == items[n - 1]@);
        if flags[n - 1] {
            assert(match_views(before.push(items[n - 1])) =~= match_views(before).push(
                items[n - 1]@,
            ));
        }
    } else {
        assert(match_views(Seq::<StructuralMatch>::empty()) =~= Seq::<MatchView>::empty());
    }
}

/// Keeps of `matches` those that the two policies keep, in their order. The matches
/// that are kept are handed on as they are, each with the engine's record of it.
pub fn retain_kept(unique: bool, limit: bool, matches: Vec<StructuralMatch>) -> (r: Vec<
    StructuralMatch,
>)
    ensures
        r@ == retained(
            matches@,
            keep_flags(unique, limit, keys_of(match_views(matches@))),
            matches@.len() as int,
        ),
        match_views(r@) == kept_matches(unique, limit, match_views(matches@)),
{
    let ghost all = match_views(matches@);
    let mut keys: Vec<MatchKey> = Vec::new();
    let mut i: usize = 0;
    while i < matches.len()
        invariant
            i <= matches.len(),
            all == match_views(matches@),
            keys@.len() == i,
            forall|j: int| 0 <= j < i ==> keys@[j]@ == key_of(all[j]),
        decreases matches.len() - i,
    {
        keys.push(matches[i].key());
        i += 1;
    }
    assert(key_views(keys@) =~= keys_of(all));
    let flags = select(unique, limit, &keys);
    let ghost wanted = keep_flags(unique, limit, keys_of(all));
    let mut kept: Vec<StructuralMatch> = Vec::new();
    let mut n: usize = 0;
    let total = matches.len();
    for m in it: matches.into_iter()
        invariant
            n == it.index(),
            total == matches@.len(),
            flags@ == wanted,
            flags@.len() == total,
            it.seq() == matches@,
            kept@ == retained(matches@, wanted, n as int),
    {
        assert(n < total);
        assert(m == matches@[n as int]);
        if flags[n] {
            kept.push(m);
        }
        n += 1;
    }
    proof {
        lemma_retained_views(matches@, wanted, total as int);
    }
    kept
}

} // verus!
