//! Validation of source files written in a small notation for mathematical
//! function signatures, by a recursive-descent engine over a table of rules.
//!
//! - `rule`: rules, failures and tokens;
//! - `scan`: primitive matchers on characters;
//! - `engine`: what a rule means, and the evaluator proved to follow it;
//! - `laws`: properties of the evaluator;
//! - `notation`: the grammar of the notation language;
//! - `syntax`: validation of a set of source files.

pub mod rule;
pub mod scan;
pub mod engine;
pub mod laws;
pub mod notation;
pub mod syntax;
