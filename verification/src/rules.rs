//! Platform rules: whether a declared library applies to the running platform.

use crate::text::texts;
use vstd::prelude::*;

verus! {

/// What a rule says of an entry on a platform that it matches.
#[derive(Debug, Clone, Copy, PartialEq, Eq, Structural)]
pub enum RuleAction {
    Allow,
    Disallow,
}

/// The platforms that a rule speaks of.
#[derive(Debug, PartialEq, Eq)]
pub enum RuleCondition {
    /// Every platform.
    Always,
    /// The platforms whose operating system has this name.
    Os(String),
    /// The platforms on which this feature flag is set.
    Feature(String),
    /// A kind of condition that is not known; it matches no platform.
    Unrecognized,
}

/// One entry of a rule list.
#[derive(Debug, PartialEq, Eq)]
pub struct InstructionRule {
    pub action: RuleAction,
    pub condition: RuleCondition,
}

/// The running platform: its operating system and the feature flags that are set.
#[derive(Debug, PartialEq, Eq)]
pub struct PlatformContext {
    pub os: String,
    pub features: Vec<String>,
}

/// What a `RuleCondition` stands for.
pub enum ConditionView {
    Always,
    Os(Seq<char>),
    Feature(Seq<char>),
    Unrecognized,
}

/// What an `InstructionRule` stands for: whether it allows, and on which
/// platforms it speaks.
pub struct RuleView {
    pub allow: bool,
    pub condition: ConditionView,
}

/// What a `PlatformContext` stands for: its feature flags as a set.
pub struct PlatformView {
    pub os: Seq<char>,
    pub features: Set<Seq<char>>,
}

impl View for RuleCondition {
    type V = ConditionView;

    open spec fn view(&self) -> ConditionView {
        match self {
            RuleCondition::Always => ConditionView::Always,
            RuleCondition::Os(name) => ConditionView::Os(name@),
            RuleCondition::Feature(flag) => ConditionView::Feature(flag@),
            RuleCondition::Unrecognized => ConditionView::Unrecognized,
        }
    }
}

impl View for InstructionRule {
    type V = RuleView;

    open spec fn view(&self) -> RuleView {
        RuleView { allow: self.action == RuleAction::Allow, condition: self.condition@ }
    }
}

impl View for PlatformContext {
    type V = PlatformView;

    open spec fn view(&self) -> PlatformView {
        PlatformView { os: self.os@, features: texts(self.features@).to_set() }
    }
}

/// The rule lists that a vector of rules stands for.
pub open spec fn rule_views(rules: Seq<InstructionRule>) -> Seq<RuleView> {
    rules.map_values(|r: InstructionRule| r@)
}

/// Whether `rule` speaks of `platform`.
pub open spec fn rule_matches(rule: RuleView, platform: PlatformView) -> bool {
    match rule.condition {
        ConditionView::Always => true,
        ConditionView::Os(name) => name == platform.os,
        ConditionView::Feature(flag) => platform.features.contains(flag),
        ConditionView::Unrecognized => false,
    }
}

/// Whether a list of rules admits an entry on `platform`: the last rule that
/// matches decides, and an entry that no rule matches is admitted.
pub open spec fn rules_allow(rules: Seq<RuleView>, platform: PlatformView) -> bool
    decreases rules.len(),
{
    if rules.len() == 0 {
        true
    } else if rule_matches(rules.last(), platform) {
        rules.last().allow
    } else {
        rules_allow(rules.drop_last(), platform)
    }
}

impl PlatformContext {
    /// Whether the feature flag `flag` is set.
    pub fn has_feature(&self, flag: &String) -> (set: bool)
        ensures
            set == self@.features.contains(flag@),
    {
        let mut i: usize = 0;
        while i < self.features.len()
            invariant
                i <= self.features.len(),
                forall|j: int| 0 <= j < i ==> self.features@[j]@ != flag@,
            decreases self.features.len() - i,
        {
            if self.features[i] == *flag {
                assert(texts(self.features@)[i as int] == flag@);
                return true;
            }
            i += 1;
        }
        assert(!texts(self.features@).contains(flag@));
        false
    }
}

impl InstructionRule {
    /// Whether this rule speaks of `platform`.
    pub fn matches(&self, platform: &PlatformContext) -> (m: bool)
        ensures
            m == rule_matches(self@, platform@),
    {
        match &self.condition {
            RuleCondition::Always => true,
            RuleCondition::Os(name) => *name == platform.os,
            RuleCondition::Feature(flag) => platform.has_feature(flag),
            RuleCondition::Unrecognized => false,
        }
    }
}

/// Decides whether a list of rules admits an entry on `platform`.
pub fn is_allowed(rules: &Vec<InstructionRule>, platform: &PlatformContext) -> (allowed: bool)
    ensures
        allowed == rules_allow(rule_views(rules@), platform@),
{
    let mut allowed = true;
    let mut i: usize = 0;
    assert(rule_views(rules@).take(0) =~= Seq::<RuleView>::empty());
    while i < rules.len()
        invariant
            i <= rules.len(),
            allowed == rules_allow(rule_views(rules@).take(i as int), platform@),
        decreases rules.len() - i,
    {
        proof {
            let next = rule_views(rules@).take(i + 1);
            assert(next.drop_last() =~= rule_views(rules@).take(i as int));
            assert(next.last() == rules@[i as int]@);
        }
        if rules[i].matches(platform) {
            allowed = match rules[i].action {
                RuleAction::Allow => true,
                RuleAction::Disallow => false,
            };
        }
        i += 1;
    }
    assert(rule_views(rules@).take(rules.len() as int) =~= rule_views(rules@));
    allowed
}

/// The last rule that matches decides.
pub proof fn lemma_last_match_decides(rules: Seq<RuleView>, platform: PlatformView, k: int)
    requires
        0 <= k < rules.len(),
        rule_matches(rules[k], platform),
        forall|j: int| k < j < rules.len() ==> !rule_matches(#[trigger] rules[j], platform),
    ensures
        rules_allow(rules, platform) == rules[k].allow,
    decreases rules.len(),
{
    if k < rules.len() - 1 {
        assert(!rule_matches(rules[rules.len() - 1], platform));
        lemma_last_match_decides(rules.drop_last(), platform, k);
    }
}

/// An entry that no rule matches is admitted; so is one without rules.
pub proof fn lemma_no_match_allows(rules: Seq<RuleView>, platform: PlatformView)
    requires
        forall|j: int| 0 <= j < rules.len() ==> !rule_matches(#[trigger] rules[j], platform),
    ensures
        rules_allow(rules, platform),
    decreases rules.len(),
{
    if rules.len() > 0 {
        assert(!rule_matches(rules[rules.len() - 1], platform));
        lemma_no_match_allows(rules.drop_last(), platform);
    }
}

/// The condition that the parts of a raw rule stand for: every platform if
/// the rule names neither a system nor a feature, a system if it names one and
/// no feature, a feature if it names no system and asks for one feature to be
/// set. Anything else is not recognized.
pub open spec fn condition_of_parts(os: Option<Seq<char>>, features: Seq<(Seq<char>, bool)>)
    -> ConditionView {
    match os {
        Some(name) => if features.len() == 0 {
            ConditionView::Os(name)
        } else {
            ConditionView::Unrecognized
        },
        None => if features.len() == 0 {
            ConditionView::Always
        } else if features.len() == 1 && features[0].1 {
            ConditionView::Feature(features[0].0)
        } else {
            ConditionView::Unrecognized
        },
    }
}

/// The rule that the parts of a raw rule stand for. Its action is `allow` or
/// `disallow`; a rule with another action is not recognized, and matches
/// nothing.
pub open spec fn rule_of_parts(
    action: Seq<char>,
    os: Option<Seq<char>>,
    features: Seq<(Seq<char>, bool)>,
) -> RuleView {
    if action == "allow"@ {
        RuleView { allow: true, condition: condition_of_parts(os, features) }
    } else if action == "disallow"@ {
        RuleView { allow: false, condition: condition_of_parts(os, features) }
    } else {
        RuleView { allow: false, condition: ConditionView::Unrecognized }
    }
}

impl InstructionRule {
    /// Reads a rule from its raw parts: the name of its action, the operating
    /// system it names, and the feature flags it asks for with the values it
    /// asks them to have.
    pub fn from_parts(action: &String, os: Option<String>, features: Vec<(String, bool)>) -> (rule:
        InstructionRule)
        ensures
            rule@ == rule_of_parts(
                action@,
                match os {
                    Some(name) => Some(name@),
                    None => None,
                },
                features@.map_values(|f: (String, bool)| (f.0@, f.1)),
            ),
    {
        let allow = *action == "allow".to_owned();
        let disallow = *action == "disallow".to_owned();
        if !allow && !disallow {
            return InstructionRule {
                action: RuleAction::Disallow,
                condition: RuleCondition::Unrecognized,
            };
        }
        let mut features = features;
        let asked = features.len();
        let condition = match os {
            Some(name) => if asked == 0 {
                RuleCondition::Os(name)
            } else {
                RuleCondition::Unrecognized
            },
            None => if asked == 0 {
                RuleCondition::Always
            } else if asked == 1 && features[0].1 {
                let only = features.remove(0);
                RuleCondition::Feature(only.0)
            } else {
                RuleCondition::Unrecognized
            },
        };
        InstructionRule {
            action: if allow {
                RuleAction::Allow
            } else {
                RuleAction::Disallow
            },
            condition,
        }
    }
}

} // verus!
