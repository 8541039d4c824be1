//! Regular-expression constraints on query variables, written `var=regex`.
//!
//! An entry is split at its first `=`. Both sides are trimmed. The variable side gets the
//! sigil `$` in front unless it has one, and a trailing `!` is taken off and makes the
//! constraint a negated one. The other side is compiled by the regular-expression engine.
//! Two entries for one variable do not both stay: the later one replaces the earlier.

use crate::text::{chars_of, copy_range, same_text, texts, trim, trim_range};
use vstd::prelude::*;
use vstd::string::StringExecFns;

verus! {

/// A compiled regular expression of the `regex` crate, carried through without
/// inspection.
#[verifier::external_type_specification]
#[verifier::external_body]
pub struct ExRegex(regex::Regex);

/// The diagnostic of the `regex` crate for an expression it rejects.
#[verifier::external_type_specification]
#[verifier::external_body]
pub struct ExRegexError(regex::Error);

/// What the `regex` crate makes of `re`: the compiled expression, or its diagnostic
/// where it rejects the expression because its syntax is not valid or the compiled
/// expression would be over the crate's default size limit.
pub uninterp spec fn regex_outcome(re: Seq<char>) -> Result<regex::Regex, regex::Error>;

/// Whether the `regex` crate accepts `re`.
pub open spec fn regex_compiles(re: Seq<char>) -> bool {
    regex_outcome(re) is Ok
}

/// Calls `regex::Regex::new`. What comes back, the compiled expression or the
/// diagnostic, is told by the expression alone, and is what `regex_outcome` names.
#[verifier::external_body]
fn compile_regex(re: &str) -> (r: Result<regex::Regex, regex::Error>)
    ensures
        r == regex_outcome(re@),
{
    regex::Regex::new(re)
}

/// Why a list of constraint entries was rejected.
#[derive(Debug)]
pub enum RegexError {
    /// The entry, given back as written, holds no `=`.
    InvalidFormat(String),
    /// The regular-expression engine rejected the right-hand side.
    InvalidRegex(regex::Error),
}

/// A [`RegexError`] as values.
pub enum RegexErrorView {
    InvalidFormat(Seq<char>),
    InvalidRegex(regex::Error),
}

impl View for RegexError {
    type V = RegexErrorView;

    open spec fn view(&self) -> RegexErrorView {
        match self {
            RegexError::InvalidFormat(entry) => RegexErrorView::InvalidFormat(entry@),
            RegexError::InvalidRegex(e) => RegexErrorView::InvalidRegex(*e),
        }
    }
}

/// One constraint as values: the variable with its sigil, whether the constraint is
/// negated, the text of the regular expression, and the expression as the engine
/// compiled it.
pub struct ConstraintView {
    pub name: Seq<char>,
    pub negate: bool,
    pub source: Seq<char>,
    pub regex: regex::Regex,
}

/// Whether `i` is the place of the first `=` in `entry`.
pub open spec fn is_separator(entry: Seq<char>, i: int) -> bool {
    &&& 0 <= i < entry.len()
    &&& entry[i] == '='
    &&& forall|j: int| 0 <= j < i ==> entry[j] != '='
}

/// Whether `entry` holds a `=`.
pub open spec fn has_separator(entry: Seq<char>) -> bool {
    exists|i: int| is_separator(entry, i)
}

/// The place of the first `=` in an entry that has one.
pub open spec fn separator(entry: Seq<char>) -> int {
    choose|i: int| is_separator(entry, i)
}

/// The variable side of an entry, trimmed.
pub open spec fn variable_side(entry: Seq<char>) -> Seq<char> {
    trim(entry.take(separator(entry)))
}

/// The expression side of an entry, trimmed.
pub open spec fn expression_side(entry: Seq<char>) -> Seq<char> {
    trim(entry.skip(separator(entry) + 1))
}

/// The variable side with the sigil in front.
pub open spec fn with_sigil(var: Seq<char>) -> Seq<char> {
    if var.len() > 0 && var.first() == '$' {
        var
    } else {
        seq!['$'] + var
    }
}

/// Whether the variable side asks for a negated constraint.
pub open spec fn asks_negation(var: Seq<char>) -> bool {
    with_sigil(var).last() == '!'
}

/// The name under which a variable side is kept.
pub open spec fn normalized_name(var: Seq<char>) -> Seq<char> {
    if asks_negation(var) {
        with_sigil(var).drop_last()
    } else {
        with_sigil(var)
    }
}

/// What an entry with a `=` says.
pub open spec fn entry_constraint(entry: Seq<char>) -> ConstraintView {
    ConstraintView {
        name: normalized_name(variable_side(entry)),
        negate: asks_negation(variable_side(entry)),
        source: expression_side(entry),
        regex: regex_outcome(expression_side(entry))->Ok_0,
    }
}

/// Whether an entry is accepted: it has a `=` and its expression compiles.
pub open spec fn entry_is_valid(entry: Seq<char>) -> bool {
    has_separator(entry) && regex_compiles(expression_side(entry))
}

/// Whether no two constraints of `s` speak of one variable.
pub open spec fn distinct_names(s: Seq<ConstraintView>) -> bool {
    forall|i: int, j: int| 0 <= i < j < s.len() ==> s[i].name != s[j].name
}

/// Whether `s` holds a constraint on `name` at `i`.
pub open spec fn names_at(s: Seq<ConstraintView>, name: Seq<char>, i: int) -> bool {
    0 <= i < s.len() && s[i].name == name
}

/// `s` after `c` is put in: `c` takes the place of a constraint on the same variable,
/// or goes to the end where there is none.
pub open spec fn with_constraint(s: Seq<ConstraintView>, c: ConstraintView) -> Seq<
    ConstraintView,
> {
    if exists|i: int| names_at(s, c.name, i) {
        s.update(choose|i: int| names_at(s, c.name, i), c)
    } else {
        s.push(c)
    }
}

/// The constraints that a list of accepted entries leaves, later entries replacing
/// earlier ones on the same variable.
pub open spec fn constraints_of(entries: Seq<Seq<char>>) -> Seq<ConstraintView>
    decreases entries.len(),
{
    if entries.len() == 0 {
        Seq::empty()
    } else {
        with_constraint(constraints_of(entries.drop_last()), entry_constraint(entries.last()))
    }
}

/// Whether `k` is the first entry that is not accepted.
pub open spec fn is_first_invalid(entries: Seq<Seq<char>>, k: int) -> bool {
    &&& 0 <= k < entries.len()
    &&& !entry_is_valid(entries[k])
    &&& forall|j: int| 0 <= j < k ==> entry_is_valid(#[trigger] entries[j])
}

/// Whether every entry is accepted.
pub open spec fn all_valid(entries: Seq<Seq<char>>) -> bool {
    forall|i: int| 0 <= i < entries.len() ==> entry_is_valid(#[trigger] entries[i])
}

/// What parsing a list of entries gives: the constraints, or the fault of the first
/// entry that is not accepted, with the diagnostic of the engine where the engine
/// rejected its expression.
pub open spec fn parse_outcome(entries: Seq<Seq<char>>) -> Result<
    Seq<ConstraintView>,
    RegexErrorView,
> {
    if all_valid(entries) {
        Ok(constraints_of(entries))
    } else {
        let bad = entries[choose|k: int| is_first_invalid(entries, k)];
        if has_separator(bad) {
            Err(RegexErrorView::InvalidRegex(regex_outcome(expression_side(bad))->Err_0))
        } else {
            Err(RegexErrorView::InvalidFormat(bad))
        }
    }
}

/// The name under which a variable side is kept starts with the sigil.
pub proof fn lemma_name_has_sigil(var: Seq<char>)
    ensures
        normalized_name(var).len() > 0,
        normalized_name(var).first() == '$',
{
    let sigiled = with_sigil(var);
    assert(sigiled.len() > 0 && sigiled.first() == '$');
    if asks_negation(var) {
        assert(sigiled.len() > 1);
        assert(sigiled.drop_last().first() == sigiled.first());
    }
}

/// Putting a constraint in keeps the names apart, and leaves the constraint in.
pub proof fn lemma_with_constraint(s: Seq<ConstraintView>, c: ConstraintView)
    requires
        distinct_names(s),
    ensures
        distinct_names(with_constraint(s, c)),
        with_constraint(s, c).contains(c),
        forall|d: ConstraintView| s.contains(d) && d.name != c.name ==> with_constraint(s, c).contains(d),
{
    let t = with_constraint(s, c);
    if exists|i: int| names_at(s, c.name, i) {
        let k = choose|i: int| names_at(s, c.name, i);
        assert(t[k] == c);
        assert forall|i: int, j: int| 0 <= i < j < t.len() implies t[i].name != t[j].name by {
            assert(s[i].name != s[j].name);
        }
        assert forall|d: ConstraintView| s.contains(d) && d.name != c.name implies t.contains(d) by {
            let i = choose|i: int| 0 <= i < s.len() && s[i] == d;
            assert(t[i] == d);
        }
    } else {
        assert(t[s.len() as int] == c);
        assert forall|i: int, j: int| 0 <= i < j < t.len() implies t[i].name != t[j].name by {
            if j < s.len() {
                assert(s[i].name != s[j].name);
            } else {
                assert(!names_at(s, c.name, i));
            }
        }
        assert forall|d: ConstraintView| s.contains(d) && d.name != c.name implies t.contains(d) by {
            let i = choose|i: int| 0 <= i < s.len() && s[i] == d;
            assert(t[i] == d);
        }
    }
}

/// Of the entries for one variable the last one stays: the constraints that a list of
/// entries leaves speak of each variable once, and hold what the last entry for a
/// variable says.
pub proof fn lemma_later_entry_wins(entries: Seq<Seq<char>>, i: int)
    requires
        0 <= i < entries.len(),
        forall|j: int|
            i < j < entries.len() ==> entry_constraint(#[trigger] entries[j]).name
                != entry_constraint(entries[i]).name,
    ensures
        distinct_names(constraints_of(entries)),
        constraints_of(entries).contains(entry_constraint(entries[i])),
    decreases entries.len(),
{
    lemma_constraints_distinct(entries.drop_last());
    lemma_with_constraint(
        constraints_of(entries.drop_last()),
        entry_constraint(entries.last()),
    );
    if i < entries.len() - 1 {
        assert forall|j: int| i < j < entries.drop_last().len() implies entry_constraint(
            #[trigger] entries.drop_last()[j],
        ).name != entry_constraint(entries.drop_last()[i]).name by {
            assert(entries.drop_last()[j] == entries[j]);
        }
        lemma_later_entry_wins(entries.drop_last(), i);
        assert(entries.drop_last()[i] == entries[i]);
        assert(entry_constraint(entries[entries.len() - 1]).name != entry_constraint(
            entries[i],
        ).name);
    }
}

/// The constraints that a list of entries leaves speak of each variable once.
pub proof fn lemma_constraints_distinct(entries: Seq<Seq<char>>)
    ensures
        distinct_names(constraints_of(entries)),
    decreases entries.len(),
{
    if entries.len() > 0 {
        lemma_constraints_distinct(entries.drop_last());
        lemma_with_constraint(
            constraints_of(entries.drop_last()),
            entry_constraint(entries.last()),
        );
    }
}

/// The two sides of an entry, before the expression is compiled.
pub struct ConstraintParts {
    pub name: String,
    pub negate: bool,
    pub source: String,
}

/// Splits an entry at its first `=` and normalises the variable side.
pub fn split_entry(entry: &str) -> (r: Option<ConstraintParts>)
    ensures
        r is Some <==> has_separator(entry@),
        r matches Some(p) ==> {
            &&& p.name@ == entry_constraint(entry@).name
            &&& p.negate == entry_constraint(entry@).negate
            &&& p.source@ == entry_constraint(entry@).source
        },
{
    let chars = chars_of(entry);
    let n = chars.len();
    let mut i: usize = 0;
    while i < n && chars[i] != '='
        invariant
            i <= n == chars.len(),
            forall|j: int| 0 <= j < i ==> chars@[j] != '=',
        decreases n - i,
    {
        i += 1;
    }
    if i == n {
        assert(!has_separator(entry@)) by {
            if has_separator(entry@) {
                let k = choose|k: int| is_separator(entry@, k);
                assert(chars@[k] == '=');
            }
        }
        return None;
    }
    assert(is_separator(entry@, i as int));
    let (a, b) = trim_range(&chars, 0, i);
    let (c, d) = trim_range(&chars, i + 1, n);
    let has_sigil = a < b && chars[a] == '$';
    let negate = a < b && chars[b - 1] == '!';
    let end = if negate {
        b - 1
    } else {
        b
    };
    let mut name = String::new();
    if !has_sigil {
        proof {
            reveal_strlit("$");
        }
        name.append("$");
    }
    let body = copy_range(entry, a, end);
    name.append(body.as_str());
    let source = copy_range(entry, c, d);
    proof {
        let var = variable_side(entry@);
        assert(entry@.take(i as int) =~= chars@.subrange(0, i as int));
        assert(entry@.skip(i as int + 1) =~= chars@.subrange(i as int + 1, n as int));
        assert(var == chars@.subrange(a as int, b as int));
        assert(var.len() == b - a);
        if a < b {
            assert(var.first() == chars@[a as int]);
            assert(var.last() == chars@[b - 1]);
        }
        let sigiled = with_sigil(var);
        if has_sigil {
            assert(sigiled == var);
        } else {
            assert(sigiled == seq!['$'] + var);
            assert("$"@ =~= seq!['$']);
            if a < b {
                assert(sigiled.last() == var.last());
            } else {
                assert(sigiled =~= seq!['$']);
            }
        }
        assert(negate == asks_negation(var));
        assert(name@ =~= normalized_name(var));
    }
    Some(ConstraintParts { name, negate, source })
}

/// One constraint on a query variable.
#[derive(Debug)]
pub struct RegexConstraint {
    name: String,
    negate: bool,
    source: String,
    regex: regex::Regex,
}

impl View for RegexConstraint {
    type V = ConstraintView;

    closed spec fn view(&self) -> ConstraintView {
        ConstraintView {
            name: self.name@,
            negate: self.negate,
            source: self.source@,
            regex: self.regex,
        }
    }
}

impl RegexConstraint {
    /// The variable that is constrained, with its sigil.
    pub fn name(&self) -> (r: &str)
        ensures
            r@ == self@.name,
    {
        self.name.as_str()
    }

    /// Whether a value must fail to match the expression.
    pub fn negate(&self) -> (r: bool)
        ensures
            r == self@.negate,
    {
        self.negate
    }

    /// The text of the expression.
    pub fn source(&self) -> (r: &str)
        ensures
            r@ == self@.source,
    {
        self.source.as_str()
    }

    /// The expression that the engine compiled from the text of the constraint.
    pub open spec fn compiled(&self) -> regex::Regex {
        self@.regex
    }

    /// The compiled expression.
    pub fn regex(&self) -> (r: &regex::Regex)
        ensures
            *r == self.compiled(),
    {
        &self.regex
    }
}

/// The constraints of one pattern, at most one for each variable, in the order in
/// which their variables first came.
#[derive(Debug)]
pub struct RegexConstraints {
    entries: Vec<RegexConstraint>,
}

impl View for RegexConstraints {
    type V = Seq<ConstraintView>;

    closed spec fn view(&self) -> Seq<ConstraintView> {
        self.entries@.map_values(|c: RegexConstraint| c@)
    }
}

impl RegexConstraints {
    #[verifier::type_invariant]
    spec fn well_formed(self) -> bool {
        distinct_names(self@)
    }

    /// No constraint at all.
    pub fn new() -> (r: Self)
        ensures
            r@ == Seq::<ConstraintView>::empty(),
    {
        let r = RegexConstraints { entries: Vec::new() };
        assert(r@ =~= Seq::<ConstraintView>::empty());
        r
    }

    /// The number of constrained variables.
    pub fn len(&self) -> (n: usize)
        ensures
            n == self@.len(),
    {
        self.entries.len()
    }

    /// Whether no variable is constrained.
    pub fn is_empty(&self) -> (b: bool)
        ensures
            b == (self@.len() == 0),
    {
        self.entries.len() == 0
    }

    /// The constraint at `i`, in the order in which the variables first came.
    pub fn get(&self, i: usize) -> (c: &RegexConstraint)
        requires
            i < self@.len(),
        ensures
            c@ == self@[i as int],
    {
        &self.entries[i]
    }

    /// Where the constraint on `name` stands, if there is one.
    pub fn position(&self, name: &str) -> (r: Option<usize>)
        ensures
            r matches Some(i) ==> names_at(self@, name@, i as int) && forall|j: int|
                0 <= j < i ==> self@[j].name != name@,
            r is None ==> forall|j: int| 0 <= j < self@.len() ==> self@[j].name != name@,
    {
        let mut i: usize = 0;
        while i < self.entries.len()
            invariant
                i <= self.entries.len(),
                forall|j: int| 0 <= j < i ==> self@[j].name != name@,
            decreases self.entries.len() - i,
        {
            if same_text(self.entries[i].name.as_str(), name) {
                return Some(i);
            }
            i += 1;
        }
        None
    }

    /// Puts a constraint in, with the expression that was compiled from its text. One on
    /// the same variable is replaced where it stands.
    fn insert(self, parts: ConstraintParts, regex: regex::Regex) -> (r: RegexConstraints)
        ensures
            r@ == with_constraint(
                self@,
                ConstraintView {
                    name: parts.name@,
                    negate: parts.negate,
                    source: parts.source@,
                    regex,
                },
            ),
    {
        proof {
            use_type_invariant(&self);
        }
        let ghost before = self@;
        let ghost added = ConstraintView {
            name: parts.name@,
            negate: parts.negate,
            source: parts.source@,
            regex,
        };
        let found = self.position(parts.name.as_str());
        let c = RegexConstraint {
            name: parts.name,
            negate: parts.negate,
            source: parts.source,
            regex,
        };
        assert(c@ == added);
        let mut entries = self.entries;
        match found {
            Some(i) => {
                entries.set(i, c);
                proof {
                    let after = entries@.map_values(|c: RegexConstraint| c@);
                    assert(names_at(before, added.name, i as int));
                    let k = choose|k: int| names_at(before, added.name, k);
                    assert(k == i) by {
                        if k < i {
                            assert(before[k].name != before[i as int].name);
                        } else if i < k {
                            assert(before[i as int].name != before[k].name);
                        }
                    }
                    assert(after =~= before.update(i as int, added));
                    assert forall|x: int, y: int| 0 <= x < y < after.len() implies after[x].name
                        != after[y].name by {
                        assert(before[x].name != before[y].name);
                    }
                }
                RegexConstraints { entries }
            },
            None => {
                entries.push(c);
                proof {
                    let after = entries@.map_values(|c: RegexConstraint| c@);
                    assert(!(exists|k: int| names_at(before, added.name, k)));
                    assert(after =~= before.push(added));
                    assert forall|x: int, y: int| 0 <= x < y < after.len() implies after[x].name
                        != after[y].name by {
                        if y < before.len() {
                            assert(before[x].name != before[y].name);
                        } else {
                            assert(before[x].name != added.name);
                        }
                    }
                }
                RegexConstraints { entries }
            },
        }
    }

    /// Parses a list of entries of the form `var=regex`.
    ///
    /// The entries are taken in order, and the first one that is not accepted ends the
    /// parse: without a `=` it is given back in `InvalidFormat`; with an expression that
    /// the engine rejects the engine's diagnostic is given back in `InvalidRegex`. An
    /// empty list gives no constraint.
    pub fn parse(entries: &Vec<String>) -> (r: Result<RegexConstraints, RegexError>)
        ensures
            match r {
                Ok(c) => parse_outcome(texts(entries@)) == Ok::<_, RegexErrorView>(c@),
                Err(e) => parse_outcome(texts(entries@)) == Err::<Seq<ConstraintView>, _>(e@),
            },
    {
        let ghost all = texts(entries@);
        let mut result = RegexConstraints::new();
        let mut i: usize = 0;
        proof {
            assert(all.take(0) =~= Seq::<Seq<char>>::empty());
        }
        while i < entries.len()
            invariant
                i <= entries.len(),
                all == texts(entries@),
                all.len() == entries.len(),
                forall|j: int| 0 <= j < i ==> entry_is_valid(#[trigger] all[j]),
                result@ == constraints_of(all.take(i as int)),
            decreases entries.len() - i,
        {
            let entry = &entries[i];
            assert(all[i as int] == entry@);
            let parts = match split_entry(entry.as_str()) {
                Some(parts) => parts,
                None => {
                    proof {
                        assert(is_first_invalid(all, i as int));
                        let k = choose|k: int| is_first_invalid(all, k);
                        assert(k == i);
                    }
                    return Err(RegexError::InvalidFormat(entry.clone()));
                },
            };
            let regex = match compile_regex(parts.source.as_str()) {
                Ok(regex) => regex,
                Err(e) => {
                    proof {
                        assert(is_first_invalid(all, i as int));
                        let k = choose|k: int| is_first_invalid(all, k);
                        assert(k == i);
                    }
                    return Err(RegexError::InvalidRegex(e));
                },
            };
            result = result.insert(parts, regex);
            proof {
                let next = all.take(i as int + 1);
                assert(next.drop_last() =~= all.take(i as int));
                assert(next.last() == all[i as int]);
            }
            i += 1;
        }
        proof {
            assert(all.take(i as int) =~= all);
            assert(all_valid(all));
        }
        Ok(result)
    }
}

} // verus!
