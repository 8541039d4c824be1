//! Rule-driven structural scanning of C and C++ source text.
//!
//! A rule names one or more checks. A check is a structural pattern, compiled by the
//! query engine `weggli`, with regular-expression constraints on its variables and two
//! policies that thin its matches out. A rule set holds rules under the keys that say
//! where they came from, and a matcher scans sources with it: it passes over the checks
//! whose identifiers a source does not hold, parses the source once, runs the other
//! checks on the tree, and records what they find.
//!
//! The modules, from the leaves up: [`text`], [`yaml`] and [`syntax`] read texts;
//! [`constraint`], [`pattern`], [`structural`] and [`checker`] make and run checks;
//! [`error`], [`schema`], [`rule`] and [`ruleset`] load rules; [`source`], [`matcher`]
//! and [`reporting`] scan and report.

pub mod checker;
pub mod constraint;
pub mod error;
pub mod matcher;
pub mod pattern;
pub mod reporting;
pub mod rule;
pub mod ruleset;
pub mod schema;
pub mod source;
pub mod structural;
pub mod syntax;
pub mod text;
pub mod yaml;
