//! A rule engine for sets of categorical labels.
//!
//! Labels are short identifiers made of a letter and a numeric code
//! (`B0`, `X42`).  A policy is a list of named rules; each rule may carry a
//! `when` guard, a `require` clause and an `exclude` clause, all expressed as
//! pattern sets over label identifiers.  The engine parses label strings,
//! expands wildcard patterns against a reference catalog, evaluates the four
//! set combinators (none / one / some / all) and composes the three-valued
//! rule results (pass / fail / skip).

pub mod common;
pub mod label_id_set;
pub mod label_match;
pub mod label_match_set;
pub mod label_set;
pub mod parsed_label;
pub mod parser;
pub mod rule;
pub mod rule_filter;
pub mod rule_spec;
pub mod rules;
pub mod specs;
pub mod test_result;
pub mod tests;
pub mod token_rule;
