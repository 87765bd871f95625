//! [`Rules`]: a plain collection of [`Rule`].

use vstd::prelude::*;

use crate::rule::Rule;

verus! {

/// Holds a vector of rules.
#[derive(Debug)]
pub struct Rules {
    pub rules: Vec<Rule>,
}

} // verus!
