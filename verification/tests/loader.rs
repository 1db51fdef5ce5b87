use configtrace::policy::loader::fault_of_rule;
use configtrace::policy::loader::validate_policy;
use configtrace::policy::loader::PolicyError;
use configtrace::policy::models::default_severity;
use configtrace::policy::models::CheckDefinition;
use configtrace::policy::models::PolicyFile;
use configtrace::policy::models::PolicySeverity;
use configtrace::policy::models::RuleDefinition;

fn rule(id: &str, check: CheckDefinition) -> RuleDefinition {
    RuleDefinition {
        id: id.to_string(),
        description: None,
        severity: default_severity(),
        pattern: None,
        check,
    }
}

fn required(key: &str) -> CheckDefinition {
    CheckDefinition::RequiredKey { key: key.to_string() }
}

#[test]
fn test_load_valid_policy() {
    let policy = PolicyFile {
        name: "test-policy".to_string(),
        description: Some("A test policy".to_string()),
        rules: vec![RuleDefinition {
            id: "check-debug".to_string(),
            description: Some("No debug mode".to_string()),
            severity: PolicySeverity::Critical,
            pattern: None,
            check: CheckDefinition::ForbiddenValue {
                key: "debug".to_string(),
                value: "true".to_string(),
            },
        }],
    };
    assert!(validate_policy(&policy).is_ok());
    assert_eq!(policy.name, "test-policy");
    assert_eq!(policy.rules.len(), 1);
}

#[test]
fn test_load_policy_empty_rules() {
    let policy = PolicyFile { name: "empty".to_string(), description: None, rules: vec![] };
    let result = validate_policy(&policy);
    assert!(result.is_err());
    assert!(result.unwrap_err().message().contains("at least one rule"));
}

#[test]
fn test_load_policy_duplicate_ids() {
    let policy = PolicyFile {
        name: "dupes".to_string(),
        description: None,
        rules: vec![rule("same-id", required("a")), rule("same-id", required("b"))],
    };
    let result = validate_policy(&policy);
    assert!(result.is_err());
    assert!(result.unwrap_err().message().contains("Duplicate rule id"));
}

#[test]
fn test_load_policy_invalid_regex() {
    let policy = PolicyFile {
        name: "bad-regex".to_string(),
        description: None,
        rules: vec![rule(
            "bad",
            CheckDefinition::ValueMatch { key: "x".to_string(), regex: "[invalid".to_string() },
        )],
    };
    let result = validate_policy(&policy);
    assert!(result.is_err());
    assert!(result.unwrap_err().message().contains("Invalid regex"));
}

#[test]
fn test_load_policy_default_severity() {
    let policy = PolicyFile {
        name: "defaults".to_string(),
        description: None,
        rules: vec![rule("no-severity", required("something"))],
    };
    assert!(validate_policy(&policy).is_ok());
    assert_eq!(policy.rules[0].severity, PolicySeverity::Medium);
}

#[test]
fn invalid_glob_is_refused() {
    let mut bad = rule("globbed", required("a"));
    bad.pattern = Some("a**b".to_string());
    let policy = PolicyFile { name: "p".to_string(), description: None, rules: vec![bad] };
    match validate_policy(&policy) {
        Err(PolicyError::InvalidGlob { rule_id, pattern }) => {
            assert_eq!(rule_id, "globbed");
            assert_eq!(pattern, "a**b");
        }
        other => panic!("unexpected outcome: {:?}", other),
    }
    let mut good = rule("globbed", required("a"));
    good.pattern = Some("conf/**/*.y?ml".to_string());
    let policy = PolicyFile { name: "p".to_string(), description: None, rules: vec![good] };
    assert!(validate_policy(&policy).is_ok());
}

#[test]
fn the_first_fault_is_the_one_reported() {
    let mut late = rule("late", required("a"));
    late.pattern = Some("[".to_string());
    let policy = PolicyFile {
        name: "p".to_string(),
        description: None,
        rules: vec![
            rule("one", required("a")),
            rule(
                "two",
                CheckDefinition::ValueMatch { key: "x".to_string(), regex: "a{".to_string() },
            ),
            late,
            rule("one", required("b")),
        ],
    };
    match validate_policy(&policy) {
        Err(PolicyError::InvalidRegex { rule_id, regex }) => {
            assert_eq!(rule_id, "two");
            assert_eq!(regex, "a{");
        }
        other => panic!("unexpected outcome: {:?}", other),
    }
}

#[test]
fn a_repeated_id_comes_before_the_patterns_of_its_rule() {
    let policy = PolicyFile {
        name: "p".to_string(),
        description: None,
        rules: vec![
            rule("x", required("a")),
            rule(
                "x",
                CheckDefinition::ValueMatch { key: "x".to_string(), regex: "(".to_string() },
            ),
        ],
    };
    match validate_policy(&policy) {
        Err(PolicyError::DuplicateRuleId { id }) => assert_eq!(id, "x"),
        other => panic!("unexpected outcome: {:?}", other),
    }
}

#[test]
fn the_fault_of_a_rule_follows_what_is_known_of_it() {
    let mut both = rule(
        "r",
        CheckDefinition::ValueMatch { key: "k".to_string(), regex: "x".to_string() },
    );
    both.pattern = Some("*.yaml".to_string());
    assert!(fault_of_rule(&both, false, true, true).is_none());
    assert!(matches!(
        fault_of_rule(&both, true, false, false),
        Some(PolicyError::DuplicateRuleId { .. })
    ));
    assert!(matches!(
        fault_of_rule(&both, false, false, false),
        Some(PolicyError::InvalidRegex { .. })
    ));
    assert!(matches!(
        fault_of_rule(&both, false, true, false),
        Some(PolicyError::InvalidGlob { .. })
    ));
    let plain = rule("p", required("a"));
    assert!(fault_of_rule(&plain, false, false, false).is_none());
}

#[test]
fn error_messages_name_the_rule() {
    assert_eq!(PolicyError::NoRules.message(), "Policy must contain at least one rule");
    assert_eq!(
        PolicyError::DuplicateRuleId { id: "r".to_string() }.message(),
        "Duplicate rule id: 'r'"
    );
    assert_eq!(
        PolicyError::InvalidRegex { rule_id: "r".to_string(), regex: "(".to_string() }.message(),
        "Invalid regex in rule 'r': ("
    );
    assert_eq!(
        PolicyError::InvalidGlob { rule_id: "r".to_string(), pattern: "[".to_string() }.message(),
        "Invalid glob pattern in rule 'r': ["
    );
}
