//! Regular-expression pattern holders used by external label tooling.

use vstd::prelude::*;

use crate::common::RegexPattern;

verus! {

/// The pair of patterns used to take a label apart: one for the
/// identifier, one for the description.
#[derive(Debug)]
pub struct Parser {
    pub id: RegexPattern,
    pub description: RegexPattern,
}

/// A named pattern.
#[derive(Debug)]
pub struct Token {
    pub name: String,
    pub regexp: RegexPattern,
}

impl Default for Parser {
    /// The stock patterns: a letter-digit identifier and the free text
    /// after the separator.
    fn default() -> (r: Self)
        ensures
            r.id@ == "^(\\w\\d).*$"@,
            r.description@ == "^\\w\\d-(.*?)$"@,
    {
        Self {
            id: String::from_str("^(\\w\\d).*$"),
            description: String::from_str("^\\w\\d-(.*?)$"),
        }
    }
}

} // verus!
