//! [`RuleFilter`]: the rule selection a test fixture may carry.

use vstd::prelude::*;

verus! {

/// The identifiers of the rules a test asks to run.
#[derive(Debug)]
pub struct RuleFilter {
    pub id: Vec<String>,
}

} // verus!
