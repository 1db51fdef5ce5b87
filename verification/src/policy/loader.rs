//! What a policy must meet before its rules are evaluated.

use vstd::prelude::*;
use crate::keys::ascending;
use crate::keys::has_key;
use crate::keys::insert_key;
use crate::policy::evaluator::check_compiles;
use crate::policy::evaluator::pattern_compiles;
use crate::policy::evaluator::rules_compile;
use crate::policy::models::CheckDefinition;
use crate::policy::models::PolicyFile;
use crate::policy::models::RuleDefinition;
use crate::policy::patterns::glob_is_valid;
use crate::policy::patterns::regex_is_valid;
use crate::text::string_views;

verus! {

/// Why a policy is refused.
#[derive(Debug, Clone)]
pub enum PolicyError {
    /// The policy has no rule.
    NoRules,
    /// Two rules have the same id.
    DuplicateRuleId { id: String },
    /// The regular expression of a rule is not well formed.
    InvalidRegex { rule_id: String, regex: String },
    /// The glob pattern of a rule is not well formed.
    InvalidGlob { rule_id: String, pattern: String },
}

/// A `PolicyError` as plain values.
pub enum PolicyErrorView {
    NoRules,
    DuplicateRuleId { id: Seq<char> },
    InvalidRegex { rule_id: Seq<char>, regex: Seq<char> },
    InvalidGlob { rule_id: Seq<char>, pattern: Seq<char> },
}

impl View for PolicyError {
    type V = PolicyErrorView;

    open spec fn view(&self) -> PolicyErrorView {
        match self {
            PolicyError::NoRules => PolicyErrorView::NoRules,
            PolicyError::DuplicateRuleId { id } => PolicyErrorView::DuplicateRuleId { id: id@ },
            PolicyError::InvalidRegex { rule_id, regex } => PolicyErrorView::InvalidRegex {
                rule_id: rule_id@,
                regex: regex@,
            },
            PolicyError::InvalidGlob { rule_id, pattern } => PolicyErrorView::InvalidGlob {
                rule_id: rule_id@,
                pattern: pattern@,
            },
        }
    }
}

impl PolicyErrorView {
    /// The error in words.
    pub open spec fn message(self) -> Seq<char> {
        match self {
            PolicyErrorView::NoRules => "Policy must contain at least one rule"@,
            PolicyErrorView::DuplicateRuleId { id } => "Duplicate rule id: '"@ + id + "'"@,
            PolicyErrorView::InvalidRegex { rule_id, regex } => "Invalid regex in rule '"@
                + rule_id + "': "@ + regex,
            PolicyErrorView::InvalidGlob { rule_id, pattern } =>
                "Invalid glob pattern in rule '"@ + rule_id + "': "@ + pattern,
        }
    }
}

impl PolicyError {
    /// The error in words.
    pub fn message(&self) -> (s: String)
        ensures
            s@ == self@.message(),
    {
        match self {
            PolicyError::NoRules => "Policy must contain at least one rule".to_string(),
            PolicyError::DuplicateRuleId { id } => {
                let mut s = "Duplicate rule id: '".to_string();
                s.append(id.as_str());
                s.append("'");
                s
            },
            PolicyError::InvalidRegex { rule_id, regex } => {
                let mut s = "Invalid regex in rule '".to_string();
                s.append(rule_id.as_str());
                s.append("': ");
                s.append(regex.as_str());
                s
            },
            PolicyError::InvalidGlob { rule_id, pattern } => {
                let mut s = "Invalid glob pattern in rule '".to_string();
                s.append(rule_id.as_str());
                s.append("': ");
                s.append(pattern.as_str());
                s
            },
        }
    }
}

/// An earlier rule of the list has the id of rule `i`.
pub open spec fn id_seen_before(rules: Seq<RuleDefinition>, i: int) -> bool {
    exists|j: int| 0 <= j < i && (#[trigger] rules[j]).id@ == rules[i].id@
}

/// What is wrong with rule `i` of the list, if anything: its id was used
/// before, or else its regular expression, or else its glob pattern is
/// not well formed.
pub open spec fn rule_fault(rules: Seq<RuleDefinition>, i: int) -> Option<PolicyErrorView> {
    fault_given(
        rules[i],
        id_seen_before(rules, i),
        check_compiles(rules[i].check),
        pattern_compiles(rules[i]),
    )
}

/// What is wrong with a rule, once it is known whether its id was used
/// before, and whether its regular expression and its glob pattern, if it
/// has them, are well formed.
pub open spec fn fault_given(
    rule: RuleDefinition,
    seen_before: bool,
    regex_ok: bool,
    glob_ok: bool,
) -> Option<PolicyErrorView> {
    if seen_before {
        Some(PolicyErrorView::DuplicateRuleId { id: rule.id@ })
    } else if rule.check is ValueMatch && !regex_ok {
        Some(PolicyErrorView::InvalidRegex { rule_id: rule.id@, regex: (rule.check->regex)@ })
    } else if rule.pattern is Some && !glob_ok {
        Some(PolicyErrorView::InvalidGlob { rule_id: rule.id@, pattern: (rule.pattern->0)@ })
    } else {
        None
    }
}

/// The view of an optional error.
pub open spec fn opt_error(e: Option<PolicyError>) -> Option<PolicyErrorView> {
    match e {
        Some(x) => Some(x@),
        None => None,
    }
}

/// Tells what is wrong with a rule, given what is known of its id and
/// its patterns.
pub fn fault_of_rule(rule: &RuleDefinition, seen_before: bool, regex_ok: bool, glob_ok: bool) -> (r:
    Option<PolicyError>)
    ensures
        opt_error(r) == fault_given(*rule, seen_before, regex_ok, glob_ok),
{
    if seen_before {
        return Some(PolicyError::DuplicateRuleId { id: rule.id.clone() });
    }
    if let CheckDefinition::ValueMatch { regex, .. } = &rule.check {
        if !regex_ok {
            return Some(
                PolicyError::InvalidRegex { rule_id: rule.id.clone(), regex: regex.clone() },
            );
        }
    }
    if let Some(pattern) = &rule.pattern {
        if !glob_ok {
            return Some(
                PolicyError::InvalidGlob { rule_id: rule.id.clone(), pattern: pattern.clone() },
            );
        }
    }
    None
}

/// The fault of the first faulty rule among the first `n`.
pub open spec fn first_fault(rules: Seq<RuleDefinition>, n: nat) -> Option<PolicyErrorView>
    decreases n,
{
    if n == 0 {
        None
    } else {
        match first_fault(rules, (n - 1) as nat) {
            Some(e) => Some(e),
            None => rule_fault(rules, n - 1),
        }
    }
}

/// Why a policy is refused, if it is: it has no rule, or the first of
/// its rules that is at fault.
pub open spec fn policy_fault(policy: PolicyFile) -> Option<PolicyErrorView> {
    if policy.rules@.len() == 0 {
        Some(PolicyErrorView::NoRules)
    } else {
        first_fault(policy.rules@, policy.rules@.len())
    }
}

/// The policy has rules, their ids differ, and their regular expressions
/// and glob patterns are well formed.
pub open spec fn policy_valid(policy: PolicyFile) -> bool {
    policy_fault(policy) is None
}

/// Where none of the first `n` rules is at fault, each of them is
/// without fault.
pub proof fn lemma_no_fault(rules: Seq<RuleDefinition>, n: nat)
    requires
        n <= rules.len(),
        first_fault(rules, n) is None,
    ensures
        forall|i: int| 0 <= i < n ==> (#[trigger] rule_fault(rules, i)) is None,
    decreases n,
{
    if n > 0 {
        lemma_no_fault(rules, (n - 1) as nat);
    }
}

/// The first fault among the first `n` rules is the first fault among
/// any more of them.
pub proof fn lemma_first_fault_stays(rules: Seq<RuleDefinition>, n: nat, m: nat)
    requires
        n <= m,
        first_fault(rules, n) is Some,
    ensures
        first_fault(rules, m) == first_fault(rules, n),
    decreases m,
{
    if n < m {
        lemma_first_fault_stays(rules, n, (m - 1) as nat);
    }
}

/// The rules of a valid policy can be evaluated, and no two of them have
/// the same id.
pub proof fn lemma_valid_policy(policy: PolicyFile)
    requires
        policy_valid(policy),
    ensures
        policy.rules@.len() > 0,
        rules_compile(policy.rules@),
        forall|i: int, j: int|
            0 <= i < j < policy.rules@.len() ==> (#[trigger] policy.rules@[i]).id@ != (
            #[trigger] policy.rules@[j]).id@,
{
    let rules = policy.rules@;
    lemma_no_fault(rules, rules.len());
    assert forall|i: int| 0 <= i < rules.len() implies pattern_compiles(#[trigger] rules[i])
        && check_compiles(rules[i].check) by {
        assert(rule_fault(rules, i) is None);
    }
    assert forall|i: int, j: int| 0 <= i < j < rules.len() implies (#[trigger] rules[i]).id@ != (
    #[trigger] rules[j]).id@ by {
        assert(rule_fault(rules, j) is None);
        assert(!id_seen_before(rules, j));
    }
}

/// Tells whether a policy can be evaluated, and why not if it cannot.
pub fn validate_policy(policy: &PolicyFile) -> (r: Result<(), PolicyError>)
    ensures
        match r {
            Ok(_) => policy_valid(*policy),
            Err(e) => policy_fault(*policy) == Some(e@),
        },
{
    if policy.rules.len() == 0 {
        return Err(PolicyError::NoRules);
    }
    let ghost rules = policy.rules@;
    let mut seen: Vec<String> = Vec::new();
    let mut i: usize = 0;
    while i < policy.rules.len()
        invariant
            i <= rules.len(),
            rules == policy.rules@,
            first_fault(rules, i as nat) is None,
            ascending(string_views(seen@)),
            forall|k: Seq<char>|
                string_views(seen@).contains(k) <==> exists|j: int|
                    0 <= j < i && (#[trigger] rules[j]).id@ == k,
        decreases rules.len() - i,
    {
        let rule = &policy.rules[i];
        let seen_before = has_key(&seen, rule.id.as_str());
        assert(seen_before == id_seen_before(rules, i as int));
        let regex_ok = match &rule.check {
            CheckDefinition::ValueMatch { regex, .. } => regex_is_valid(regex.as_str()),
            _ => true,
        };
        let glob_ok = match &rule.pattern {
            Some(pattern) => glob_is_valid(pattern.as_str()),
            None => true,
        };
        if let Some(fault) = fault_of_rule(rule, seen_before, regex_ok, glob_ok) {
            proof {
                lemma_first_fault_stays(rules, (i + 1) as nat, rules.len());
            }
            return Err(fault);
        }
        assert(rule_fault(rules, i as int) is None);
        let ghost before = string_views(seen@);
        let _ = insert_key(&mut seen, rule.id.clone());
        proof {
            assert forall|k: Seq<char>| string_views(seen@).contains(k) <==> exists|j: int|
                0 <= j < i + 1 && (#[trigger] rules[j]).id@ == k by {
                if string_views(seen@).contains(k) {
                    if k == rule.id@ {
                        assert(rules[i as int].id@ == k);
                    } else {
                        assert(before.contains(k));
                        let j = choose|j: int| 0 <= j < i && (#[trigger] rules[j]).id@ == k;
                        assert(0 <= j < i + 1 && rules[j].id@ == k);
                    }
                }
                if exists|j: int| 0 <= j < i + 1 && (#[trigger] rules[j]).id@ == k {
                    let j = choose|j: int| 0 <= j < i + 1 && (#[trigger] rules[j]).id@ == k;
                    if j < i {
                        assert(before.contains(k));
                    }
                }
            }
        }
        i += 1;
    }
    Ok(())
}

} // verus!
