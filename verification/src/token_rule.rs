//! The tagged combinators a rule clause may carry: how many members of a
//! pattern set's reference expansion must appear among the candidate labels.

use vstd::prelude::*;

use crate::label_match_set::LabelMatchSet;

verus! {

/// The combinator of a `require` clause.
#[derive(Debug)]
pub enum TokenRuleRequire {
    /// No member of the set may be present.
    NoneOf(LabelMatchSet),
    /// Exactly one member of the set must be present.
    OneOf(LabelMatchSet),
    /// At least one member of the set must be present.
    SomeOf(LabelMatchSet),
    /// Every member of the set must be present.
    AllOf(LabelMatchSet),
}

/// The combinator of an `exclude` clause; only the blanket exclusion is
/// defined.
#[derive(Debug)]
pub enum TokenRuleExclude {
    /// No member of the set may be present.
    AllOf(LabelMatchSet),
}

/// The combinator of a `when` guard.
#[derive(Debug)]
pub enum TokenRuleWhen {
    /// The rule applies when no member of the set is present.
    NoneOf(LabelMatchSet),
    /// The rule applies when exactly one member of the set is present.
    OneOf(LabelMatchSet),
    /// The rule applies when at least one member of the set is present.
    SomeOf(LabelMatchSet),
    /// The rule applies when every member of the set is present.
    AllOf(LabelMatchSet),
}

} // verus!
