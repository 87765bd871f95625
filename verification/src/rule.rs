//! [`Rule`]: a named policy unit over label identifiers.

use vstd::prelude::*;

use crate::label_match_set::LabelMatchSet;
use crate::parsed_label::LabelId;
use crate::rule_spec::RuleSpec;
use crate::specs::{spec_catalog_wf, Specs};
use crate::token_rule::{TokenRuleExclude, TokenRuleRequire, TokenRuleWhen};

verus! {

/// A user-given grouping keyword.
pub type Tag = String;

/// The identifier of a rule.
pub type RuleId = String;

/// A policy rule: meta information plus the [`RuleSpec`] stating what the
/// rule demands.
#[derive(Debug)]
pub struct Rule {
    pub name: String,
    pub description: Option<String>,
    pub id: Option<RuleId>,
    pub disabled: bool,
    pub tags: Option<Vec<Tag>>,
    pub spec: RuleSpec,
}

impl Default for Rule {
    /// A rule named `Rule` with no clause, not disabled.
    fn default() -> (r: Self)
        ensures
            r.name@ == "Rule"@,
            r.description is None,
            r.id is None,
            !r.disabled,
            r.tags is None,
            r.spec.when is None,
            r.spec.require is None,
            r.spec.exclude is None,
    {
        Self {
            name: String::from_str("Rule"),
            description: None,
            id: None,
            disabled: false,
            tags: None,
            spec: RuleSpec { when: None, require: None, exclude: None },
        }
    }
}

/// A rule reads the candidates as a set: two presentations of the same set
/// of ids receive the same outcome.
pub proof fn lemma_check_depends_on_set(
    rule: Rule,
    l1: Seq<LabelId>,
    l2: Seq<LabelId>,
    specs: &Specs,
)
    requires
        l1.to_set() == l2.to_set(),
    ensures
        spec_check(rule, l1, specs) == spec_check(rule, l2, specs),
{
    match rule.spec.when {
        None => {},
        Some(w) => match w {
            TokenRuleWhen::NoneOf(ls) => {
                crate::label_match_set::lemma_combinators_depend_on_set(&ls, l1, l2, specs);
            },
            TokenRuleWhen::OneOf(ls) => {
                crate::label_match_set::lemma_combinators_depend_on_set(&ls, l1, l2, specs);
            },
            TokenRuleWhen::SomeOf(ls) => {
                crate::label_match_set::lemma_combinators_depend_on_set(&ls, l1, l2, specs);
            },
            TokenRuleWhen::AllOf(ls) => {
                crate::label_match_set::lemma_combinators_depend_on_set(&ls, l1, l2, specs);
            },
        },
    }
    match rule.spec.exclude {
        None => {},
        Some(TokenRuleExclude::AllOf(ls)) => {
            crate::label_match_set::lemma_combinators_depend_on_set(&ls, l1, l2, specs);
        },
    }
    match rule.spec.require {
        None => {},
        Some(tr) => match tr {
            TokenRuleRequire::NoneOf(ls) => {
                crate::label_match_set::lemma_combinators_depend_on_set(&ls, l1, l2, specs);
            },
            TokenRuleRequire::OneOf(ls) => {
                crate::label_match_set::lemma_combinators_depend_on_set(&ls, l1, l2, specs);
            },
            TokenRuleRequire::SomeOf(ls) => {
                crate::label_match_set::lemma_combinators_depend_on_set(&ls, l1, l2, specs);
            },
            TokenRuleRequire::AllOf(ls) => {
                crate::label_match_set::lemma_combinators_depend_on_set(&ls, l1, l2, specs);
            },
        },
    }
}

impl Rule {
    /// A named rule carrying the given specification and nothing else.
    pub fn new(name: &str, spec: RuleSpec) -> (r: Self)
        ensures
            r.name@ == name@,
            r.description is None,
            r.id is None,
            !r.disabled,
            r.tags is None,
            r.spec == spec,
    {
        Self {
            name: String::from_str(name),
            description: None,
            id: None,
            disabled: false,
            tags: None,
            spec,
        }
    }
}

/// Whether the `when` guard lets the rule apply: an absent guard always
/// does; a present one is evaluated with its combinator.
pub open spec fn spec_when_passes(rule: Rule, labels: Seq<LabelId>, specs: &Specs) -> bool {
    match rule.spec.when {
        None => true,
        Some(w) => match w {
            TokenRuleWhen::NoneOf(ls) => !ls.spec_some(labels),
            TokenRuleWhen::OneOf(ls) => ls.spec_one(labels),
            TokenRuleWhen::SomeOf(ls) => ls.spec_some(labels),
            TokenRuleWhen::AllOf(ls) => ls.spec_all(labels, specs),
        },
    }
}

/// The outcome of the `exclude` clause, when present: pass exactly when no
/// candidate lies in the excluded set's reference expansion.
pub open spec fn spec_exclude_result(rule: Rule, labels: Seq<LabelId>) -> Option<bool> {
    match rule.spec.exclude {
        None => None,
        Some(TokenRuleExclude::AllOf(ls)) => Some(!ls.spec_some(labels)),
    }
}

/// The outcome of the `require` clause, when present, under its combinator;
/// requiring none of a set is the same as excluding all of it.
pub open spec fn spec_require_result(rule: Rule, labels: Seq<LabelId>, specs: &Specs) -> Option<
    bool,
> {
    match rule.spec.require {
        None => None,
        Some(tr) => match tr {
            TokenRuleRequire::NoneOf(ls) => Some(!ls.spec_some(labels)),
            TokenRuleRequire::OneOf(ls) => Some(ls.spec_one(labels)),
            TokenRuleRequire::SomeOf(ls) => Some(ls.spec_some(labels)),
            TokenRuleRequire::AllOf(ls) => Some(ls.spec_all(labels, specs)),
        },
    }
}

/// The three-valued outcome of a rule on a candidate label set: skip when
/// the guard rejects, when the rule is disabled or when no clause is
/// present; otherwise the conjunction of the present clauses.
pub open spec fn spec_check(rule: Rule, labels: Seq<LabelId>, specs: &Specs) -> Option<bool> {
    if !spec_when_passes(rule, labels, specs) {
        None
    } else if rule.disabled {
        None
    } else {
        match (spec_exclude_result(rule, labels), spec_require_result(rule, labels, specs)) {
            (None, None) => None,
            (Some(a), None) => Some(a),
            (None, Some(b)) => Some(b),
            (Some(a), Some(b)) => Some(a && b),
        }
    }
}

impl Rule {
    /// Pass exactly when no candidate id lies in the set's reference
    /// expansion; requiring none of a set is excluding all of it.
    pub fn require_none(
        &self,
        labels: &Vec<LabelId>,
        label_set: &LabelMatchSet,
        specs: &Specs,
    ) -> (r: bool)
        requires
            spec_catalog_wf(specs),
        ensures
            r == !label_set.spec_some(labels@),
    {
        self.exclude_all(labels, label_set, specs)
    }

    /// Pass exactly when one single candidate id lies in the set's
    /// reference expansion.
    pub fn require_one(
        &self,
        labels: &Vec<LabelId>,
        label_set: &LabelMatchSet,
        specs: &Specs,
    ) -> (r: bool)
        requires
            spec_catalog_wf(specs),
            forall|k1: int, k2: int| 0 <= k1 < k2 < labels@.len() ==> labels@[k1] != labels@[k2],
        ensures
            r == label_set.spec_one(labels@),
    {
        label_set.matches_one(labels, specs)
    }

    /// Pass exactly when at least one candidate id lies in the set's
    /// reference expansion.
    pub fn require_some(
        &self,
        labels: &Vec<LabelId>,
        label_match_set: &LabelMatchSet,
        specs: &Specs,
    ) -> (r: bool)
        requires
            spec_catalog_wf(specs),
        ensures
            r == label_match_set.spec_some(labels@),
    {
        label_match_set.matches_some(labels, specs)
    }

    /// Pass exactly when every id of the set's reference expansion is
    /// present among the candidates.
    pub fn require_all(
        &self,
        labels: &Vec<LabelId>,
        label_match_set: &LabelMatchSet,
        specs: &Specs,
    ) -> (r: bool)
        requires
            spec_catalog_wf(specs),
        ensures
            r == label_match_set.spec_all(labels@, specs),
    {
        label_match_set.matches_all(labels, specs)
    }

    /// Pass exactly when no candidate id lies in the set's reference
    /// expansion.
    pub fn exclude_all(
        &self,
        labels: &Vec<LabelId>,
        label_match_set: &LabelMatchSet,
        specs: &Specs,
    ) -> (r: bool)
        requires
            spec_catalog_wf(specs),
        ensures
            r == !label_match_set.spec_some(labels@),
    {
        !label_match_set.matches_some(labels, specs)
    }

    /// Evaluates this rule on a candidate label set, as [`spec_check`]
    /// states: skip when the guard rejects, when the rule is disabled or
    /// when it has no clause; otherwise pass exactly when every present
    /// clause passes.
    pub fn check(&self, labels: &Vec<LabelId>, specs: &Specs) -> (r: Option<bool>)
        requires
            spec_catalog_wf(specs),
            forall|k1: int, k2: int| 0 <= k1 < k2 < labels@.len() ==> labels@[k1] != labels@[k2],
        ensures
            r == spec_check(*self, labels@, specs),
    {
        if let Some(when) = &self.spec.when {
            let passes = match when {
                TokenRuleWhen::NoneOf(ls) => ls.matches_none(labels, specs),
                TokenRuleWhen::OneOf(ls) => ls.matches_one(labels, specs),
                TokenRuleWhen::SomeOf(ls) => ls.matches_some(labels, specs),
                TokenRuleWhen::AllOf(ls) => ls.matches_all(labels, specs),
            };
            if !passes {
                return None;
            }
        }
        if self.disabled {
            return None;
        }
        let exclude_result = match &self.spec.exclude {
            Some(TokenRuleExclude::AllOf(ls)) => Some(self.exclude_all(labels, ls, specs)),
            None => None,
        };
        let require_result = match &self.spec.require {
            Some(tr) => Some(
                match tr {
                    TokenRuleRequire::NoneOf(ls) => self.require_none(labels, ls, specs),
                    TokenRuleRequire::OneOf(ls) => self.require_one(labels, ls, specs),
                    TokenRuleRequire::SomeOf(ls) => self.require_some(labels, ls, specs),
                    TokenRuleRequire::AllOf(ls) => self.require_all(labels, ls, specs),
                },
            ),
            None => None,
        };
        match (exclude_result, require_result) {
            (None, None) => None,
            (Some(a), None) => Some(a),
            (None, Some(b)) => Some(b),
            (Some(a), Some(b)) => Some(a && b),
        }
    }
}

} // verus!
