//! Allow/disallow rules and their evaluation against the running environment.
use vstd::prelude::*;
use crate::text::{copy_str, eq_str};

verus! {

/// Operating systems that rules and native classifiers name.
#[derive(PartialEq, Eq, Structural, Clone, Copy, Debug, Hash)]
pub enum OperatingSystem {
    Windows,
    Linux,
    Osx,
    Unknown,
}

/// What a rule decides when it matches.
#[derive(PartialEq, Eq, Structural, Clone, Copy, Debug)]
pub enum RuleAction {
    Allow,
    Disallow,
}

/// Constraints of a rule on the operating system; each one present must match.
pub struct OsRule {
    pub name: Option<OperatingSystem>,
    /// A regular expression that must match at the start of the platform version.
    pub version: Option<String>,
    pub arch: Option<String>,
}

/// One rule: an action, optional OS constraints, and expected feature values.
pub struct Rule {
    pub action: RuleAction,
    pub os: Option<OsRule>,
    pub features: Vec<(String, bool)>,
}

/// The environment rules are evaluated against (the feature matcher).
pub struct Environment {
    pub os: OperatingSystem,
    pub os_version: String,
    pub arch: String,
    pub is_demo_user: bool,
    pub has_custom_resolution: bool,
}

/// Environments that agree on everything rules can observe.
pub open spec fn same_environment(a: &Environment, b: &Environment) -> bool {
    &&& a.os == b.os
    &&& a.os_version@ == b.os_version@
    &&& a.arch@ == b.arch@
    &&& a.is_demo_user == b.is_demo_user
    &&& a.has_custom_resolution == b.has_custom_resolution
}

/// What the `regex` crate answers for a pattern and a text: `None` when the
/// pattern does not compile, else whether it matches somewhere in the text.
pub uninterp spec fn regex_match_outcome(pattern: Seq<char>, text: Seq<char>) -> Option<bool>;

/// Relies on `regex::Regex::new` (an error for a pattern that does not compile)
/// and `Regex::is_match`; the outcome depends on the pattern and the text alone.
#[verifier::external_body]
pub(crate) fn regex_is_match(pattern: &str, text: &str) -> (r: Option<bool>)
    ensures
        r == regex_match_outcome(pattern@, text@),
{
    match regex::Regex::new(pattern) {
        Ok(re) => Some(re.is_match(text)),
        Err(_) => None,
    }
}

/// The pattern anchored at the start of the text.
pub open spec fn anchored(pattern: Seq<char>) -> Seq<char> {
    "^(?:"@ + pattern + ")"@
}

/// The value of a feature flag; keys other than the two known ones are false.
pub open spec fn feature_value(env: &Environment, key: Seq<char>) -> bool {
    if key == "is_demo_user"@ {
        env.is_demo_user
    } else if key == "has_custom_resolution"@ {
        env.has_custom_resolution
    } else {
        false
    }
}

pub open spec fn os_rule_matches(o: &OsRule, env: &Environment) -> bool {
    &&& (o.name matches Some(n) ==> n == env.os)
    &&& (o.version matches Some(v) ==> regex_match_outcome(anchored(v@), env.os_version@)
        == Some(true))
    &&& (o.arch matches Some(a) ==> a@ == env.arch@)
}

pub open spec fn features_match(features: Seq<(String, bool)>, env: &Environment) -> bool {
    forall|i: int| 0 <= i < features.len() ==> feature_value(env, (#[trigger] features[i]).0@) == features[i].1
}

/// A rule matches when every constraint it has matches.
pub open spec fn rule_matches(rule: &Rule, env: &Environment) -> bool {
    &&& (rule.os matches Some(o) ==> os_rule_matches(&o, env))
    &&& features_match(rule.features@, env)
}

/// The action of the last matching rule, disallow when none matches.
pub open spec fn last_matching_action(rules: Seq<Rule>, env: &Environment) -> RuleAction
    decreases rules.len(),
{
    if rules.len() == 0 {
        RuleAction::Disallow
    } else if rule_matches(&rules.last(), env) {
        rules.last().action
    } else {
        last_matching_action(rules.drop_last(), env)
    }
}

/// The outcome of a rule list: allow when it is empty, else the last matching action.
pub open spec fn rules_outcome(rules: Seq<Rule>, env: &Environment) -> RuleAction {
    if rules.len() == 0 {
        RuleAction::Allow
    } else {
        last_matching_action(rules, env)
    }
}

impl Environment {
    /// Whether feature `key` has the value `expected` here.
    pub fn has_feature(&self, key: &str, expected: bool) -> (r: bool)
        ensures
            r == (feature_value(self, key@) == expected),
    {
        let value = if eq_str(key, "is_demo_user") {
            self.is_demo_user
        } else if eq_str(key, "has_custom_resolution") {
            self.has_custom_resolution
        } else {
            false
        };
        value == expected
    }
}

impl OsRule {
    pub fn matches(&self, env: &Environment) -> (r: bool)
        ensures
            r == os_rule_matches(self, env),
    {
        if let Some(n) = &self.name {
            if *n != env.os {
                return false;
            }
        }
        if let Some(v) = &self.version {
            let mut pattern = copy_str("^(?:");
            pattern.append(v.as_str());
            pattern.append(")");
            if regex_is_match(pattern.as_str(), env.os_version.as_str()) != Some(true) {
                return false;
            }
        }
        if let Some(a) = &self.arch {
            if !eq_str(a.as_str(), env.arch.as_str()) {
                return false;
            }
        }
        true
    }
}

impl Rule {
    /// The rule's action when it matches `env`, `None` otherwise.
    pub fn get_applied_action(&self, env: &Environment) -> (r: Option<RuleAction>)
        ensures
            r == (if rule_matches(self, env) {
                Some(self.action)
            } else {
                None
            }),
    {
        if let Some(o) = &self.os {
            if !o.matches(env) {
                return None;
            }
        }
        let mut i: usize = 0;
        while i < self.features.len()
            invariant
                i <= self.features@.len(),
                features_match(self.features@.subrange(0, i as int), env),
            decreases self.features.len() - i,
        {
            let ghost pre = self.features@.subrange(0, i as int);
            if !env.has_feature(self.features[i].0.as_str(), self.features[i].1) {
                return None;
            }
            assert(self.features@.subrange(0, i + 1) =~= pre.push(self.features@[i as int]));
            i = i + 1;
        }
        assert(self.features@.subrange(0, i as int) =~= self.features@);
        Some(self.action)
    }
}

/// Evaluates an ordered rule list: allow when empty, else the action of the
/// last rule that matches, disallow when none does.
pub fn evaluate_rules(rules: &Vec<Rule>, env: &Environment) -> (r: RuleAction)
    ensures
        r == rules_outcome(rules@, env),
{
    if rules.len() == 0 {
        return RuleAction::Allow;
    }
    let mut action = RuleAction::Disallow;
    let mut i: usize = 0;
    while i < rules.len()
        invariant
            i <= rules@.len(),
            action == last_matching_action(rules@.subrange(0, i as int), env),
        decreases rules.len() - i,
    {
        assert(rules@.subrange(0, i + 1).drop_last() =~= rules@.subrange(0, i as int));
        if let Some(a) = rules[i].get_applied_action(env) {
            action = a;
        }
        i = i + 1;
    }
    assert(rules@.subrange(0, i as int) =~= rules@);
    action
}

/// Rule evaluation is a function of the rules and of what the environment
/// shows: equal rule lists over equivalent environments give equal outcomes.
pub proof fn lemma_rules_deterministic(
    rules1: Seq<Rule>,
    rules2: Seq<Rule>,
    env1: &Environment,
    env2: &Environment,
)
    requires
        rules1 == rules2,
        same_environment(env1, env2),
    ensures
        rules_outcome(rules1, env1) == rules_outcome(rules2, env2),
    decreases rules1.len(),
{
    lemma_last_matching_deterministic(rules1, env1, env2);
}

proof fn lemma_last_matching_deterministic(rules: Seq<Rule>, env1: &Environment, env2: &Environment)
    requires
        same_environment(env1, env2),
    ensures
        last_matching_action(rules, env1) == last_matching_action(rules, env2),
    decreases rules.len(),
{
    if rules.len() > 0 {
        let r = rules.last();
        assert(features_match(r.features@, env1) == features_match(r.features@, env2));
        assert(rule_matches(&r, env1) == rule_matches(&r, env2));
        lemma_last_matching_deterministic(rules.drop_last(), env1, env2);
    }
}

} // verus!
