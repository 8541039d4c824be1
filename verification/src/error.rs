//! The faults for which a rule is not loaded.

use crate::checker::{CheckError, CheckErrorView};
use vstd::prelude::*;

verus! {

/// Why a YAML document is no rule document.
#[derive(Debug)]
pub enum SchemaError {
    /// The document, or a check in it, is no mapping.
    NotATable,
    /// A field stands more than once, under one name or under several of its names.
    /// The field is named by the first of its names.
    RepeatedField(String),
    /// A field holds a value of the wrong kind, or a name that is not known. The field
    /// is named by the first of its names.
    InvalidField(String),
}

/// A [`SchemaError`] as plain values.
pub enum SchemaErrorView {
    NotATable,
    RepeatedField(Seq<char>),
    InvalidField(Seq<char>),
}

impl View for SchemaError {
    type V = SchemaErrorView;

    open spec fn view(&self) -> SchemaErrorView {
        match self {
            SchemaError::NotATable => SchemaErrorView::NotATable,
            SchemaError::RepeatedField(name) => SchemaErrorView::RepeatedField(name@),
            SchemaError::InvalidField(name) => SchemaErrorView::InvalidField(name@),
        }
    }
}

/// Why a rule was not loaded.
#[derive(Debug)]
pub enum RuleError {
    /// A check was rejected.
    Check(CheckError),
    /// The text is no YAML document.
    Parse(serde_yaml::Error),
    /// The YAML document is no rule document.
    Schema(SchemaError),
    /// The rule file of this path was rejected for the fault that follows.
    ParseFile(String, Box<RuleError>),
    /// The rule file could not be read; the text says why.
    Unreadable(String),
    /// The rule has no check.
    NoChecks,
    /// The rule has no identifier, or an empty one.
    NoId,
    /// Two checks of the rule have one name.
    MultipleChecksWithSameName,
}

/// A [`RuleError`] as values.
pub enum RuleErrorView {
    Check(CheckErrorView),
    Parse(serde_yaml::Error),
    Schema(SchemaErrorView),
    ParseFile(Seq<char>, Box<RuleErrorView>),
    Unreadable(Seq<char>),
    NoChecks,
    NoId,
    MultipleChecksWithSameName,
}

/// The view of a [`RuleError`].
pub open spec fn rule_error_view(e: RuleError) -> RuleErrorView
    decreases e,
{
    match e {
        RuleError::Check(e) => RuleErrorView::Check(e@),
        RuleError::Parse(e) => RuleErrorView::Parse(e),
        RuleError::Schema(e) => RuleErrorView::Schema(e@),
        RuleError::ParseFile(path, cause) => RuleErrorView::ParseFile(
            path@,
            Box::new(rule_error_view(*cause)),
        ),
        RuleError::Unreadable(why) => RuleErrorView::Unreadable(why@),
        RuleError::NoChecks => RuleErrorView::NoChecks,
        RuleError::NoId => RuleErrorView::NoId,
        RuleError::MultipleChecksWithSameName => RuleErrorView::MultipleChecksWithSameName,
    }
}

impl View for RuleError {
    type V = RuleErrorView;

    open spec fn view(&self) -> RuleErrorView {
        rule_error_view(*self)
    }
}

} // verus!
