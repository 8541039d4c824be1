//! YAML documents as plain trees, read by the `serde_yaml` crate, and the look-up of
//! the fields of a mapping.

use crate::text::{same_text, texts};
use vstd::prelude::*;

verus! {

/// The fault that `serde_yaml` reports for a text that is no YAML document.
#[verifier::external_type_specification]
#[verifier::external_body]
pub struct ExYamlError(serde_yaml::Error);

/// A YAML value of `serde_yaml`, on its way to becoming a [`Yaml`].
#[verifier::external_type_specification]
#[verifier::external_body]
pub struct ExYamlValue(serde_yaml::Value);

/// A YAML value.
#[derive(Debug)]
pub enum Yaml {
    /// The null value.
    Null,
    /// A boolean.
    Flag(bool),
    /// A number, as `serde_yaml` writes it.
    Number(String),
    /// A string.
    Text(String),
    /// A sequence.
    List(Vec<Yaml>),
    /// A mapping, its entries in the order of the document.
    Table(Vec<(Yaml, Yaml)>),
    /// A value with a tag.
    Tagged,
}

/// What `serde_yaml` makes of `text`: the tree of the document, or its fault where the
/// text is no single YAML document.
pub uninterp spec fn yaml_outcome(text: Seq<char>) -> Result<Yaml, serde_yaml::Error>;

/// Copies a `serde_yaml::Value`, variant by variant: a number by its `to_string`, the
/// items of a sequence and the keys and values of a mapping each by this function
/// again, in their order. A tagged value keeps nothing but that it is one.
#[verifier::external_body]
fn copy_value(value: serde_yaml::Value) -> Yaml {
    match value {
        serde_yaml::Value::Null => Yaml::Null,
        serde_yaml::Value::Bool(flag) => Yaml::Flag(flag),
        serde_yaml::Value::Number(number) => Yaml::Number(number.to_string()),
        serde_yaml::Value::String(text) => Yaml::Text(text),
        serde_yaml::Value::Sequence(items) => Yaml::List(items.into_iter().map(copy_value).collect()),
        serde_yaml::Value::Mapping(entries) => Yaml::Table(
            entries.into_iter().map(|(k, v)| (copy_value(k), copy_value(v))).collect(),
        ),
        serde_yaml::Value::Tagged(_) => Yaml::Tagged,
    }
}

/// Calls `serde_yaml::from_str` for a `serde_yaml::Value` and copies the value: the
/// tree of the document, or the fault where the text is no single YAML document. Both
/// are told by the text alone, and are what `yaml_outcome` names.
#[verifier::external_body]
fn read_document(text: &str) -> (r: Result<Yaml, serde_yaml::Error>)
    ensures
        r == yaml_outcome(text@),
{
    serde_yaml::from_str::<serde_yaml::Value>(text).map(copy_value)
}

/// What was found of a field in a mapping.
#[derive(Debug, Clone, Copy, PartialEq, Eq, Structural)]
pub enum Found {
    /// No entry has one of the field's names as its key.
    Missing,
    /// More than one entry has.
    Repeated,
    /// Exactly the entry at this place has.
    At(usize),
}

/// Whether the entry at `i` has one of `names` as its key.
pub open spec fn is_field(entries: Seq<(Yaml, Yaml)>, names: Seq<Seq<char>>, i: int) -> bool {
    &&& 0 <= i < entries.len()
    &&& entries[i].0 matches Yaml::Text(key)
    &&& names.contains(key@)
}

/// Where a field stands in a mapping.
pub enum Place {
    /// No entry has one of the field's names as its key.
    Missing,
    /// More than one entry has.
    Repeated,
    /// Exactly the entry at this place has.
    At(int),
}

/// Where the field with these names stands.
pub open spec fn locate(entries: Seq<(Yaml, Yaml)>, names: Seq<Seq<char>>) -> Place {
    if forall|i: int| !is_field(entries, names, i) {
        Place::Missing
    } else if exists|i: int, j: int|
        i != j && is_field(entries, names, i) && is_field(entries, names, j) {
        Place::Repeated
    } else {
        Place::At(choose|i: int| is_field(entries, names, i))
    }
}

/// The value of the field with these names: none where it is missing, and nothing
/// where it is repeated.
pub open spec fn field(entries: Seq<(Yaml, Yaml)>, names: Seq<Seq<char>>) -> Option<Option<Yaml>> {
    match locate(entries, names) {
        Place::Missing => Some(None),
        Place::Repeated => None,
        Place::At(i) => Some(Some(entries[i].1)),
    }
}

impl Found {
    /// The place that was found.
    pub open spec fn place(self) -> Place {
        match self {
            Found::Missing => Place::Missing,
            Found::Repeated => Place::Repeated,
            Found::At(i) => Place::At(i as int),
        }
    }
}

/// Whether `key` is one of `names`.
fn is_name(names: &Vec<String>, key: &str) -> (b: bool)
    ensures
        b == texts(names@).contains(key@),
{
    let mut i: usize = 0;
    while i < names.len()
        invariant
            i <= names.len(),
            forall|j: int| 0 <= j < i ==> texts(names@)[j] != key@,
        decreases names.len() - i,
    {
        if same_text(names[i].as_str(), key) {
            assert(texts(names@)[i as int] == key@);
            return true;
        }
        i += 1;
    }
    false
}

/// Looks a field up by its names.
pub fn find_field(entries: &Vec<(Yaml, Yaml)>, names: &Vec<String>) -> (r: Found)
    ensures
        r.place() == locate(entries@, texts(names@)),
        r matches Found::At(i) ==> is_field(entries@, texts(names@), i as int),
{
    let ghost wanted = texts(names@);
    let mut found: Option<usize> = None;
    let mut i: usize = 0;
    while i < entries.len()
        invariant
            i <= entries.len(),
            wanted == texts(names@),
            match found {
                Some(at) => at < i && is_field(entries@, wanted, at as int) && forall|j: int|
                    0 <= j < i && j != at ==> !is_field(entries@, wanted, j),
                None => forall|j: int| 0 <= j < i ==> !is_field(entries@, wanted, j),
            },
        decreases entries.len() - i,
    {
        let here = match &entries[i].0 {
            Yaml::Text(key) => is_name(names, key.as_str()),
            _ => false,
        };
        assert(here == is_field(entries@, wanted, i as int));
        if here {
            match found {
                Some(at) => {
                    assert(at as int != i as int && is_field(entries@, wanted, at as int)
                        && is_field(entries@, wanted, i as int));
                    return Found::Repeated;
                },
                None => {
                    found = Some(i);
                },
            }
        }
        i += 1;
    }
    match found {
        Some(at) => {
            proof {
                let k = choose|k: int| is_field(entries@, wanted, k);
                assert(k == at);
            }
            Found::At(at)
        },
        None => Found::Missing,
    }
}

impl Yaml {
    /// Reads a YAML document.
    pub fn parse(text: &str) -> (r: Result<Yaml, serde_yaml::Error>)
        ensures
            r == yaml_outcome(text@),
    {
        read_document(text)
    }
}

} // verus!
