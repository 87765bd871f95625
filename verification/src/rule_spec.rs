//! [`RuleSpec`]: the three optional clauses of a rule.

use vstd::prelude::*;

use crate::common::{set_to_string, spec_capitalize, spec_join};
use crate::label_match_set::LabelMatchSet;
use crate::token_rule::{TokenRuleExclude, TokenRuleRequire, TokenRuleWhen};

verus! {

/// The wording of a `require` clause in a user tip.
pub open spec fn spec_tip_require(tr: TokenRuleRequire) -> Seq<char> {
    match tr {
        TokenRuleRequire::AllOf(set) => "you need to include all of the "@ + spec_join(
            set.patterns(),
        ) + " label(s)"@,
        TokenRuleRequire::NoneOf(set) => "you need to include none of the "@ + spec_join(
            set.patterns(),
        ) + " label(s)"@,
        TokenRuleRequire::OneOf(set) => "you need to include one of the "@ + spec_join(
            set.patterns(),
        ) + " label(s)"@,
        TokenRuleRequire::SomeOf(set) => "you need to include some of the "@ + spec_join(
            set.patterns(),
        ) + " label(s)"@,
    }
}

/// The wording of an `exclude` clause in a user tip.
pub open spec fn spec_tip_exclude(te: TokenRuleExclude) -> Seq<char> {
    match te {
        TokenRuleExclude::AllOf(set) => "you need to exclude all of the "@ + spec_join(
            set.patterns(),
        ) + " label(s)"@,
    }
}

/// The wording of a `when` guard in a user tip.
pub open spec fn spec_tip_when(w: TokenRuleWhen) -> Seq<char> {
    match w {
        TokenRuleWhen::AllOf(set) => "since you have all of the "@ + spec_join(set.patterns())
            + " label(s)"@,
        TokenRuleWhen::NoneOf(set) => "since you none of "@ + spec_join(set.patterns())
            + " label(s)"@,
        TokenRuleWhen::OneOf(set) => "since you have one of the "@ + spec_join(set.patterns())
            + " label(s)"@,
        TokenRuleWhen::SomeOf(set) => "since you have some of the "@ + spec_join(set.patterns())
            + " label(s)"@,
    }
}

/// The full user tip of a rule specification: the present clauses' wordings
/// in guard, require, exclude order, capitalized.
pub open spec fn spec_user_tip(rs: RuleSpec) -> Seq<char> {
    let when = match rs.when {
        Some(w) => spec_tip_when(w) + ", "@,
        None => Seq::<char>::empty(),
    };
    let require = match rs.require {
        Some(r) => spec_tip_require(r),
        None => Seq::<char>::empty(),
    };
    let and = if rs.require is Some && rs.exclude is Some {
        " and "@
    } else {
        Seq::<char>::empty()
    };
    let exclude = match rs.exclude {
        Some(e) => spec_tip_exclude(e),
        None => Seq::<char>::empty(),
    };
    spec_capitalize(when + require + and + exclude)
}

/// The clauses of a rule: **when** it applies, what it **require**s and
/// what it **exclude**s.
#[derive(Debug)]
pub struct RuleSpec {
    pub when: Option<TokenRuleWhen>,
    pub require: Option<TokenRuleRequire>,
    pub exclude: Option<TokenRuleExclude>,
}

impl RuleSpec {
    /// Assembles a rule specification from its clauses.
    pub fn new(
        when: Option<TokenRuleWhen>,
        require: Option<TokenRuleRequire>,
        exclude: Option<TokenRuleExclude>,
    ) -> (r: Self)
        ensures
            r == (RuleSpec { when, require, exclude }),
    {
        Self { when, require, exclude }
    }

    /// Renders this specification as a tip telling the user how to fix a
    /// failing check, as [`spec_user_tip`] states.
    /// Renders this specification as a tip telling the user how to fix a
    /// failing check, as [`spec_user_tip`] states.
    pub fn to_user_tip(&self) -> (r: String)
        ensures
            r@ == spec_user_tip(*self),
    {
        let ghost when_part = if self.when is Some {
            spec_tip_when(self.when->0) + ", "@
        } else {
            Seq::<char>::empty()
        };
        let ghost require_part = if self.require is Some {
            spec_tip_require(self.require->0)
        } else {
            Seq::<char>::empty()
        };
        let ghost and_part = if self.require is Some && self.exclude is Some {
            " and "@
        } else {
            Seq::<char>::empty()
        };
        let ghost exclude_part = if self.exclude is Some {
            spec_tip_exclude(self.exclude->0)
        } else {
            Seq::<char>::empty()
        };
        let mut body = String::new();
        if let Some(w) = &self.when {
            let piece = render_when(w);
            body.append(piece.as_str());
            body.append(", ");
        }
        proof {
            assert(body@ =~= when_part);
        }
        if let Some(tr) = &self.require {
            let piece = render_require(tr);
            body.append(piece.as_str());
        }
        if self.require.is_some() && self.exclude.is_some() {
            body.append(" and ");
        }
        if let Some(te) = &self.exclude {
            let piece = render_exclude(te);
            body.append(piece.as_str());
        }
        proof {
            assert(body@ =~= when_part + require_part + and_part + exclude_part);
        }
        let r = crate::common::capitalize(body.as_str());
        r
    }
}

impl Default for RuleSpec {
    /// A specification with no clause at all.
    fn default() -> (r: Self)
        ensures
            r.when is None,
            r.require is None,
            r.exclude is None,
    {
        Self { when: None, require: None, exclude: None }
    }
}

/// Renders a `when` guard's wording.
fn render_when(w: &TokenRuleWhen) -> (r: String)
    ensures
        r@ == spec_tip_when(*w),
{
    let mut body = String::new();
    let set = match w {
        TokenRuleWhen::AllOf(set) => {
            body.append("since you have all of the ");
            set
        },
        TokenRuleWhen::NoneOf(set) => {
            body.append("since you none of ");
            set
        },
        TokenRuleWhen::OneOf(set) => {
            body.append("since you have one of the ");
            set
        },
        TokenRuleWhen::SomeOf(set) => {
            body.append("since you have some of the ");
            set
        },
    };
    let joined = set_to_string(&pattern_strings(set));
    body.append(joined.as_str());
    body.append(" label(s)");
    body
}

/// Renders a `require` clause's wording.
fn render_require(tr: &TokenRuleRequire) -> (r: String)
    ensures
        r@ == spec_tip_require(*tr),
{
    let mut body = String::new();
    let set = match tr {
        TokenRuleRequire::AllOf(set) => {
            body.append("you need to include all of the ");
            set
        },
        TokenRuleRequire::NoneOf(set) => {
            body.append("you need to include none of the ");
            set
        },
        TokenRuleRequire::OneOf(set) => {
            body.append("you need to include one of the ");
            set
        },
        TokenRuleRequire::SomeOf(set) => {
            body.append("you need to include some of the ");
            set
        },
    };
    let joined = set_to_string(&pattern_strings(set));
    body.append(joined.as_str());
    body.append(" label(s)");
    body
}

/// Renders an `exclude` clause's wording.
fn render_exclude(te: &TokenRuleExclude) -> (r: String)
    ensures
        r@ == spec_tip_exclude(*te),
{
    let mut body = String::new();
    let set = match te {
        TokenRuleExclude::AllOf(set) => {
            body.append("you need to exclude all of the ");
            set
        },
    };
    let joined = set_to_string(&pattern_strings(set));
    body.append(joined.as_str());
    body.append(" label(s)");
    body
}

/// The pattern texts of a set, as owned strings.
fn pattern_strings(set: &LabelMatchSet) -> (r: Vec<String>)
    ensures
        r@.map_values(|it: String| it@) == set.patterns(),
{
    let mut out: Vec<String> = Vec::new();
    let mut k: usize = 0;
    while k < set.0.len()
        invariant
            k <= set.0@.len(),
            out@.len() == k,
            forall|m: int| 0 <= m < k ==> out@.map_values(|it: String| it@)[m] == set.patterns()[m],
        decreases set.0@.len() - k,
    {
        let p = set.0[k].0.clone();
        out.push(p);
        k += 1;
    }
    proof {
        assert(out@.map_values(|it: String| it@) =~= set.patterns());
    }
    out
}

} // verus!
