use resource_sync::{is_allowed, InstructionRule, PlatformContext, RuleAction, RuleCondition};

fn platform(os: &str, features: &[&str]) -> PlatformContext {
    PlatformContext { os: os.to_string(), features: features.iter().map(|f| f.to_string()).collect() }
}

fn rule(action: RuleAction, condition: RuleCondition) -> InstructionRule {
    InstructionRule { action, condition }
}

fn os(name: &str) -> RuleCondition {
    RuleCondition::Os(name.to_string())
}

fn feature(flag: &str) -> RuleCondition {
    RuleCondition::Feature(flag.to_string())
}

#[test]
fn no_rules_allow() {
    assert!(is_allowed(&Vec::new(), &platform("linux", &[])));
}

#[test]
fn always_rule_decides() {
    assert!(is_allowed(&vec![rule(RuleAction::Allow, RuleCondition::Always)], &platform("linux", &[])));
    assert!(!is_allowed(&vec![rule(RuleAction::Disallow, RuleCondition::Always)], &platform("linux", &[])));
}

#[test]
fn last_matching_rule_wins() {
    let rules = vec![
        rule(RuleAction::Allow, RuleCondition::Always),
        rule(RuleAction::Disallow, os("osx")),
    ];
    assert!(!is_allowed(&rules, &platform("osx", &[])));
    assert!(is_allowed(&rules, &platform("linux", &[])));

    let reversed = vec![
        rule(RuleAction::Disallow, os("osx")),
        rule(RuleAction::Allow, RuleCondition::Always),
    ];
    assert!(is_allowed(&reversed, &platform("osx", &[])));
}

#[test]
fn entry_that_no_rule_matches_is_allowed() {
    let rules = vec![rule(RuleAction::Allow, os("windows")), rule(RuleAction::Disallow, os("osx"))];
    assert!(is_allowed(&rules, &platform("linux", &[])));
    assert!(is_allowed(&rules, &platform("windows", &[])));
    assert!(!is_allowed(&rules, &platform("osx", &[])));
}

#[test]
fn feature_rule_matches_only_when_the_flag_is_set() {
    let rules = vec![rule(RuleAction::Disallow, feature("is_demo_user"))];
    assert!(is_allowed(&rules, &platform("linux", &[])));
    assert!(is_allowed(&rules, &platform("linux", &["has_custom_resolution"])));
    assert!(!is_allowed(&rules, &platform("linux", &["has_custom_resolution", "is_demo_user"])));
}

#[test]
fn unrecognized_rule_does_not_block() {
    let rules = vec![rule(RuleAction::Disallow, RuleCondition::Unrecognized)];
    assert!(is_allowed(&rules, &platform("linux", &[])));
    let after_disallow = vec![
        rule(RuleAction::Disallow, RuleCondition::Always),
        rule(RuleAction::Allow, RuleCondition::Unrecognized),
    ];
    assert!(!is_allowed(&after_disallow, &platform("linux", &[])));
}

#[test]
fn rule_matching_is_by_exact_name() {
    assert!(rule(RuleAction::Allow, os("linux")).matches(&platform("linux", &[])));
    assert!(!rule(RuleAction::Allow, os("linux")).matches(&platform("Linux", &[])));
    assert!(!rule(RuleAction::Allow, os("")).matches(&platform("linux", &[])));
    assert!(rule(RuleAction::Disallow, RuleCondition::Always).matches(&platform("", &[])));
    assert!(!rule(RuleAction::Allow, RuleCondition::Unrecognized).matches(&platform("linux", &[])));
    assert!(platform("linux", &["a", "b"]).has_feature(&"b".to_string()));
    assert!(!platform("linux", &["a", "b"]).has_feature(&"c".to_string()));
}

fn parts(action: &str, os: Option<&str>, features: &[(&str, bool)]) -> InstructionRule {
    InstructionRule::from_parts(
        &action.to_string(),
        os.map(|name| name.to_string()),
        features.iter().map(|(flag, value)| (flag.to_string(), *value)).collect(),
    )
}

#[test]
fn raw_rule_without_condition_speaks_of_every_platform() {
    assert_eq!(parts("allow", None, &[]), rule(RuleAction::Allow, RuleCondition::Always));
    assert_eq!(parts("disallow", None, &[]), rule(RuleAction::Disallow, RuleCondition::Always));
}

#[test]
fn raw_rule_with_system_or_feature_is_read() {
    assert_eq!(parts("disallow", Some("osx"), &[]), rule(RuleAction::Disallow, os("osx")));
    assert_eq!(parts("allow", Some("linux"), &[]), rule(RuleAction::Allow, os("linux")));
    assert_eq!(
        parts("allow", None, &[("is_demo_user", true)]),
        rule(RuleAction::Allow, feature("is_demo_user"))
    );
}

#[test]
fn raw_rule_of_unknown_kind_matches_nothing() {
    let unknown = [
        parts("maybe", None, &[]),
        parts("", Some("linux"), &[]),
        parts("Allow", None, &[]),
        parts("disallow", None, &[("is_demo_user", false)]),
        parts("disallow", None, &[("a", true), ("b", true)]),
        parts("disallow", Some("linux"), &[("a", true)]),
    ];
    for raw in unknown {
        assert_eq!(raw.condition, RuleCondition::Unrecognized);
        assert!(!raw.matches(&platform("linux", &["a", "b", "is_demo_user"])));
        assert!(is_allowed(&vec![raw], &platform("linux", &["a", "b", "is_demo_user"])));
    }
}
