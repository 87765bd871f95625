#![allow(non_snake_case)]

use ruled_labels::label_id_set::LabelIdSet;
use ruled_labels::label_match_set::LabelMatchSet;
use ruled_labels::parsed_label::LabelId;
use ruled_labels::rule::Rule;
use ruled_labels::rule_spec::RuleSpec;
use ruled_labels::specs::{Label, Specs};
use ruled_labels::token_rule::{TokenRuleExclude, TokenRuleRequire, TokenRuleWhen};

fn label(name: &str) -> Label {
    Label { name: name.to_string(), description: String::new(), color: String::new() }
}

/// A small catalog with a few labels of each letter class.
fn test_specs() -> Specs {
    Specs {
        name: "test".to_string(),
        description: "test catalog".to_string(),
        version: "0.1.0".to_string(),
        labels: vec![
            label("A1"),
            label("A2"),
            label("B0"),
            label("B1"),
            label("B2"),
            label("X1"),
            label("X2"),
            label("X3"),
            label("P1"),
        ],
        rules: vec![],
    }
}

fn named_rule(spec: RuleSpec) -> Rule {
    Rule {
        name: "test rule".to_string(),
        description: None,
        id: None,
        disabled: false,
        spec,
        tags: None,
    }
}

#[test]
fn rule_test_rule_default() {
    let rule = Rule::default();
    assert_eq!(None, rule.id);
    assert_eq!(false, rule.disabled);
}

#[test]
fn rule_test_from_single() {
    let set = LabelMatchSet::from_str("B1");
    assert_eq!(1, set.len());
}

#[test]
fn rule_test_from_multiple() {
    let set = LabelMatchSet::from_str("B1, C*");
    assert_eq!(2, set.len());
}

#[test]
fn rule_test_matches() {
    let set = LabelMatchSet::from_str("A1,A2,B*");
    assert_eq!(3, set.len());
    let res = set.matches_label(&LabelId::from("A1"));
    assert!(res.0);
    assert!(res.1.is_some());
    assert_eq!(1, res.1.unwrap().len());
}

#[test]
fn test_rule_check_require_none_of_true() {
    let specs = &test_specs();
    let token_rule = TokenRuleRequire::NoneOf(LabelMatchSet::from_str("B0, B1"));
    let spec = RuleSpec { require: Some(token_rule), exclude: None, when: None };
    let rule = named_rule(spec);

    let res = rule.check(&LabelIdSet::from_str("T0,T1,T2"), specs);

    assert_eq!(Some(true), res);
}

#[test]
fn test_rule_check_require_none_of_false() {
    let specs = &test_specs();
    let token_rule = TokenRuleRequire::NoneOf(LabelMatchSet::from_str("B0, B1"));
    let spec = RuleSpec { require: Some(token_rule), exclude: None, when: None };
    let rule = named_rule(spec);

    let res = rule.check(&LabelIdSet::from_str("B0, B1, B2"), specs);

    assert_eq!(Some(false), res);
}

#[test]
fn test_rule_check_require_one_of_true() {
    let specs = &test_specs();
    let token_rule = TokenRuleRequire::OneOf(LabelMatchSet::from_str("B0, B1"));
    let spec = RuleSpec { require: Some(token_rule), exclude: None, when: None };
    let rule = named_rule(spec);

    let res = rule.check(&LabelIdSet::from_str("B0"), specs);

    assert_eq!(Some(true), res);
}

#[test]
fn test_rule_check_require_one_of_false() {
    let specs = &test_specs();
    let token_rule = TokenRuleRequire::OneOf(LabelMatchSet::from_str("B0,B1"));
    let spec = RuleSpec { require: Some(token_rule), exclude: None, when: None };
    let rule = named_rule(spec);

    let res = rule.check(&LabelIdSet::from_str("B0,B1,B2"), specs);

    assert_eq!(Some(false), res);
}

#[test]
fn test_rule_check_require_some_of() {
    let specs = &test_specs();
    let token_rule = TokenRuleRequire::SomeOf(LabelMatchSet::from_str("B0,B1"));
    let spec = RuleSpec { require: Some(token_rule), exclude: None, when: None };
    let rule = named_rule(spec);

    let res = rule.check(&LabelIdSet::from_str("B0,B1,B2"), specs);

    assert_eq!(Some(true), res);
}

#[test]
fn test_rule_check_require_all_of() {
    let specs = &test_specs();
    let token_rule = TokenRuleRequire::AllOf(LabelMatchSet::from_str("X1,X2,X3"));
    let spec = RuleSpec { require: Some(token_rule), exclude: None, when: None };
    let rule = Rule::new("test rule", spec);

    assert_eq!(Some(true), rule.check(&LabelIdSet::from_str("X1,X2,X3"), specs));
    assert_eq!(Some(true), rule.check(&LabelIdSet::from_str("B0,X1,X2,X3"), specs));
    assert_eq!(Some(false), rule.check(&LabelIdSet::from_str("X1,X2"), specs));
}

#[test]
fn test_rule_check_require_all_of_with_star() {
    let specs = &test_specs();
    let token_rule = TokenRuleRequire::AllOf(LabelMatchSet::from_str("X*"));
    let spec = RuleSpec { require: Some(token_rule), exclude: None, when: None };
    let rule = Rule::new("test rule", spec);
    assert_eq!(Some(true), rule.check(&LabelIdSet::from_str("X1,X2,X3"), specs));
    assert_eq!(Some(true), rule.check(&LabelIdSet::from_str("B0,X1,X2,X3"), specs));
    assert_eq!(Some(false), rule.check(&LabelIdSet::from_str("X1,X1,X3"), specs));
    assert_eq!(Some(false), rule.check(&LabelIdSet::from_str("X1,X2"), specs));
}

#[test]
fn test_rule_check_require_all_of_with_star_1() {
    let specs = &test_specs();
    let token_rule = TokenRuleRequire::AllOf(LabelMatchSet::from_str("X*"));
    let spec = RuleSpec { require: Some(token_rule), exclude: None, when: None };
    let rule = Rule::new("test rule", spec);
    assert_eq!(Some(true), rule.check(&LabelIdSet::from_str("X1,X2,X3"), specs));
}

#[test]
fn test_rule_check_require_all_of_with_star_2() {
    let specs = &test_specs();
    let token_rule = TokenRuleRequire::AllOf(LabelMatchSet::from_str("X*"));
    let spec = RuleSpec { require: Some(token_rule), exclude: None, when: None };
    let rule = Rule::new("test rule", spec);
    assert_eq!(Some(true), rule.check(&LabelIdSet::from_str("B0,X1,X2,X3"), specs));
}

#[test]
fn test_rule_check_require_all_of_with_star_3() {
    let specs = &test_specs();
    let token_rule = TokenRuleRequire::AllOf(LabelMatchSet::from_str("X*"));
    let spec = RuleSpec { require: Some(token_rule), exclude: None, when: None };
    let rule = Rule::new("test rule", spec);
    assert_eq!(Some(false), rule.check(&LabelIdSet::from_str("X1,X1,X3"), specs));
}

#[test]
fn test_rule_check_require_all_of_with_star_4() {
    let specs = &test_specs();
    let token_rule = TokenRuleRequire::AllOf(LabelMatchSet::from_str("X*"));
    let spec = RuleSpec { require: Some(token_rule), exclude: None, when: None };
    let rule = Rule::new("test rule", spec);
    assert_eq!(Some(false), rule.check(&LabelIdSet::from_str("X1,X2"), specs));
}

#[test]
fn test_rule_check_exclude_all_of_false() {
    let specs = &test_specs();
    let token_rule = TokenRuleExclude::AllOf(LabelMatchSet::from_str("B0, B1"));
    let spec = RuleSpec { exclude: Some(token_rule), require: None, when: None };
    let rule = named_rule(spec);

    let res = rule.check(&LabelIdSet::from_str("B0, B1, B2"), specs);

    assert_eq!(Some(false), res);
}

#[test]
fn test_rule_check_when_B1_require_A1() {
    let specs = &test_specs();
    let when_one_b1 = TokenRuleWhen::OneOf(LabelMatchSet::from_str("B1"));
    let require_one_a1 = TokenRuleRequire::OneOf(LabelMatchSet::from_str("A1"));
    let spec = RuleSpec { when: Some(when_one_b1), require: Some(require_one_a1), exclude: None };
    let rule = named_rule(spec);

    assert_eq!(Some(false), rule.check(&LabelIdSet::from_str("B0, B1, B2"), specs));
    assert_eq!(Some(true), rule.check(&LabelIdSet::from_str("B1, A1"), specs));
    assert_eq!(Some(true), rule.check(&LabelIdSet::from_str("B1, A1, A2, B2"), specs));
    assert_eq!(None, rule.check(&LabelIdSet::from_str("A1, A2, B2"), specs));
}

#[test]
fn test_rule_check_when_all_of_B_require_one_A() {
    let specs = &test_specs();
    let when_all_b = TokenRuleWhen::AllOf(LabelMatchSet::from_str("B*"));
    let require_one_a = TokenRuleRequire::OneOf(LabelMatchSet::from_str("A*"));
    let spec = RuleSpec { when: Some(when_all_b), require: Some(require_one_a), exclude: None };
    let rule = named_rule(spec);

    assert_eq!(Some(false), rule.check(&LabelIdSet::from_str("B0, B1, B2"), specs));
    assert_eq!(Some(true), rule.check(&LabelIdSet::from_str("B0, B1, B2, A1"), specs));
    assert_eq!(Some(false), rule.check(&LabelIdSet::from_str("B0, B1, B2, A1, A2"), specs));
    assert_eq!(None, rule.check(&LabelIdSet::from_str("B0, B1"), specs));
}

#[test]
fn test_rule_check_when_all_of_B_require_some_As() {
    let specs = &test_specs();
    let when_all_b = TokenRuleWhen::AllOf(LabelMatchSet::from_str("B*"));
    let require_some_a = TokenRuleRequire::SomeOf(LabelMatchSet::from_str("A*"));
    let spec = RuleSpec { when: Some(when_all_b), require: Some(require_some_a), exclude: None };
    let rule = named_rule(spec);

    assert_eq!(Some(false), rule.check(&LabelIdSet::from_str("B0, B1, B2"), specs));
    assert_eq!(Some(true), rule.check(&LabelIdSet::from_str("B0, B1, B2, A1"), specs));
    assert_eq!(Some(true), rule.check(&LabelIdSet::from_str("B0, B1, B2, A1, A2"), specs));
    assert_eq!(None, rule.check(&LabelIdSet::from_str("B0, B1"), specs));
}

#[test]
fn test_rule_check_when_one_of_B_require_A1() {
    let specs = &test_specs();
    let when_one_b = TokenRuleWhen::OneOf(LabelMatchSet::from_str("B*"));
    let require_one_a1 = TokenRuleRequire::OneOf(LabelMatchSet::from_str("A1"));
    let spec = RuleSpec { when: Some(when_one_b), require: Some(require_one_a1), exclude: None };
    let rule = named_rule(spec);

    assert_eq!(Some(true), rule.check(&LabelIdSet::from_str("B0, A1"), specs));
    assert_eq!(None, rule.check(&LabelIdSet::from_str("B0, B1, B2, A1"), specs));
    assert_eq!(Some(true), rule.check(&LabelIdSet::from_str("B1, A1, A2"), specs));
    assert_eq!(None, rule.check(&LabelIdSet::from_str("X1"), specs));
}

#[test]
fn test_rule_check_when_one_of_B_require_some_As() {
    let specs = &test_specs();
    let when_one_b = TokenRuleWhen::OneOf(LabelMatchSet::from_str("B*"));
    let require_some_a = TokenRuleRequire::SomeOf(LabelMatchSet::from_str("A*"));
    let spec = RuleSpec { when: Some(when_one_b), require: Some(require_some_a), exclude: None };
    let rule = named_rule(spec);

    assert_eq!(Some(true), rule.check(&LabelIdSet::from_str("B0, A1"), specs));
    assert_eq!(Some(true), rule.check(&LabelIdSet::from_str("B0, A1, A2"), specs));
    assert_eq!(Some(false), rule.check(&LabelIdSet::from_str("B0, X1"), specs));
    assert_eq!(None, rule.check(&LabelIdSet::from_str("X1"), specs));
}

#[test]
fn test_rule_check_when_some_of_B_require_some_A() {
    let specs = &test_specs();
    let when_some_b = TokenRuleWhen::SomeOf(LabelMatchSet::from_str("B*"));
    let require_some_a = TokenRuleRequire::SomeOf(LabelMatchSet::from_str("A*"));
    let spec = RuleSpec { when: Some(when_some_b), require: Some(require_some_a), exclude: None };
    let rule = named_rule(spec);

    assert_eq!(Some(false), rule.check(&LabelIdSet::from_str("B0, T8"), specs));
    assert_eq!(Some(true), rule.check(&LabelIdSet::from_str("B0, A1"), specs));
    assert_eq!(Some(true), rule.check(&LabelIdSet::from_str("B1, A2"), specs));
    assert_eq!(Some(true), rule.check(&LabelIdSet::from_str("B0, B1, A2"), specs));
    assert_eq!(Some(true), rule.check(&LabelIdSet::from_str("B0, B1, A1, A2"), specs));
    assert_eq!(Some(true), rule.check(&LabelIdSet::from_str("B0, B1, A1, A2, T9"), specs));
    assert_eq!(None, rule.check(&LabelIdSet::from_str("X1"), specs));
}

#[test]
fn test_rule_check_when_some_of_B_require_some_A_and_exclude_all_X() {
    let specs = &test_specs();
    let when_some_b = TokenRuleWhen::SomeOf(LabelMatchSet::from_str("B*"));
    let require_some_a = TokenRuleRequire::SomeOf(LabelMatchSet::from_str("A*"));
    let exclude_all_x = TokenRuleExclude::AllOf(LabelMatchSet::from_str("X*"));

    let spec = RuleSpec {
        when: Some(when_some_b),
        require: Some(require_some_a),
        exclude: Some(exclude_all_x),
    };
    let rule = named_rule(spec);

    assert_eq!(Some(true), rule.check(&LabelIdSet::from_str("B0, A1"), specs));
    assert_eq!(Some(true), rule.check(&LabelIdSet::from_str("B1, A2"), specs));
    assert_eq!(Some(true), rule.check(&LabelIdSet::from_str("B0, B1, A2"), specs));
    assert_eq!(Some(true), rule.check(&LabelIdSet::from_str("B0, B1, A1, A2"), specs));
    assert_eq!(Some(false), rule.check(&LabelIdSet::from_str("B0, B1, A1, A2, T9, X1"), specs));
    assert_eq!(None, rule.check(&LabelIdSet::from_str("X1"), specs));
}

#[test]
fn test_rule_check_require_one_p_and_no_x() {
    let mut specs = test_specs();
    let require_one_p = TokenRuleRequire::OneOf(LabelMatchSet::from_str("P*"));
    let exclude_all_x = TokenRuleExclude::AllOf(LabelMatchSet::from_str("X*"));

    let spec = RuleSpec { when: None, require: Some(require_one_p), exclude: Some(exclude_all_x) };
    let rule = named_rule(spec);

    specs.rules = vec![named_rule(RuleSpec {
        when: None,
        require: Some(TokenRuleRequire::OneOf(LabelMatchSet::from_str("P*"))),
        exclude: Some(TokenRuleExclude::AllOf(LabelMatchSet::from_str("X*"))),
    })];

    assert_eq!(Some(false), rule.check(&LabelIdSet::from_str("A1, B1"), &specs));
}

#[test]
fn test_rule_spec_to_tip() {
    let tip = RuleSpec::new(None, None, None).to_user_tip();
    println!("tip: {}", tip);

    let tip = RuleSpec::new(
        None,
        Some(TokenRuleRequire::SomeOf(LabelMatchSet::from_str("A*"))),
        None,
    )
    .to_user_tip();
    println!("tip: {}", tip);

    let tip = RuleSpec::new(
        None,
        None,
        Some(TokenRuleExclude::AllOf(LabelMatchSet::from_str("B*"))),
    )
    .to_user_tip();
    println!("tip: {}", tip);

    let tip = RuleSpec::new(
        None,
        Some(TokenRuleRequire::SomeOf(LabelMatchSet::from_str("A*"))),
        Some(TokenRuleExclude::AllOf(LabelMatchSet::from_str("B*"))),
    )
    .to_user_tip();
    println!("tip: {}", tip);

    let tip = RuleSpec::new(
        Some(TokenRuleWhen::AllOf(LabelMatchSet::from_str("B*"))),
        Some(TokenRuleRequire::SomeOf(LabelMatchSet::from_str("A*"))),
        None,
    )
    .to_user_tip();
    println!("tip: {}", tip);

    let tip = RuleSpec::new(
        None,
        None,
        Some(TokenRuleExclude::AllOf(LabelMatchSet::from_str("B*"))),
    )
    .to_user_tip();
    println!("tip: {}", tip);

    let tip = RuleSpec::new(
        Some(TokenRuleWhen::AllOf(LabelMatchSet::from_str("B*"))),
        Some(TokenRuleRequire::SomeOf(LabelMatchSet::from_str("A*"))),
        Some(TokenRuleExclude::AllOf(LabelMatchSet::from_str("B*"))),
    )
    .to_user_tip();
    println!("tip: {}", tip);
}

#[test]
fn test_rule_spec_to_tip_exact() {
    let tip = RuleSpec::new(
        None,
        Some(TokenRuleRequire::OneOf(LabelMatchSet::from_str("B1"))),
        None,
    )
    .to_user_tip();
    assert_eq!("You need to include one of the B1 label(s)", tip);

    let tip = RuleSpec::new(
        Some(TokenRuleWhen::AllOf(LabelMatchSet::from_str("B*"))),
        Some(TokenRuleRequire::SomeOf(LabelMatchSet::from_str("A*"))),
        Some(TokenRuleExclude::AllOf(LabelMatchSet::from_str("X*"))),
    )
    .to_user_tip();
    assert_eq!(
        "Since you have all of the B* label(s), you need to include some of the A* label(s) \
         and you need to exclude all of the X* label(s)",
        tip
    );
}
