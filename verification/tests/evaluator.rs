use configtrace::flat::FlatConfigMap;
use configtrace::policy::check_policy;
use configtrace::policy::evaluator::evaluate_policy;
use configtrace::policy::evaluator::evaluate_rule;
use configtrace::policy::evaluator::evaluate_rules;
use configtrace::policy::evaluator::judge_value_match;
use configtrace::policy::evaluator::rule_applies_to_file;
use configtrace::policy::loader::PolicyError;
use configtrace::policy::models::default_severity;
use configtrace::policy::models::CheckDefinition;
use configtrace::policy::models::PolicyFile;
use configtrace::policy::models::PolicySeverity;
use configtrace::policy::models::RuleDefinition;
use configtrace::policy::models::SourceFile;

fn make_map(pairs: &[(&str, &str)]) -> FlatConfigMap {
    let mut map = FlatConfigMap::new();
    for (k, v) in pairs {
        map.insert(k.to_string(), v.to_string());
    }
    map
}

fn make_rule(id: &str, severity: PolicySeverity, check: CheckDefinition) -> RuleDefinition {
    RuleDefinition {
        id: id.to_string(),
        description: Some(id.to_string()),
        severity,
        pattern: None,
        check,
    }
}

#[test]
fn test_required_key_present() {
    let map = make_map(&[("logging.level", "info")]);
    let rule = make_rule(
        "r1",
        PolicySeverity::High,
        CheckDefinition::RequiredKey { key: "logging.level".to_string() },
    );
    let result = evaluate_rule(&rule, "test.yaml", &map);
    assert!(result.is_none());
}

#[test]
fn test_required_key_present_as_parent() {
    let map = make_map(&[("logging.level", "info"), ("logging.format", "json")]);
    let rule = make_rule(
        "r1",
        PolicySeverity::High,
        CheckDefinition::RequiredKey { key: "logging".to_string() },
    );
    let result = evaluate_rule(&rule, "test.yaml", &map);
    assert!(result.is_none());
}

#[test]
fn test_required_key_missing() {
    let map = make_map(&[("app.name", "test")]);
    let rule = make_rule(
        "r1",
        PolicySeverity::High,
        CheckDefinition::RequiredKey { key: "logging.level".to_string() },
    );
    let result = evaluate_rule(&rule, "test.yaml", &map);
    assert!(result.is_some());
    assert!(result.unwrap().message.contains("missing"));
}

#[test]
fn test_forbidden_key_absent() {
    let map = make_map(&[("app.name", "test")]);
    let rule = make_rule(
        "r1",
        PolicySeverity::Critical,
        CheckDefinition::ForbiddenKey { key: "debug".to_string() },
    );
    let result = evaluate_rule(&rule, "test.yaml", &map);
    assert!(result.is_none());
}

#[test]
fn test_forbidden_key_present() {
    let map = make_map(&[("debug", "true")]);
    let rule = make_rule(
        "r1",
        PolicySeverity::Critical,
        CheckDefinition::ForbiddenKey { key: "debug".to_string() },
    );
    let result = evaluate_rule(&rule, "test.yaml", &map);
    assert!(result.is_some());
    assert!(result.unwrap().message.contains("present"));
}

#[test]
fn test_value_match_passes() {
    let map = make_map(&[("aws.region", "us-east-1")]);
    let rule = make_rule(
        "r1",
        PolicySeverity::High,
        CheckDefinition::ValueMatch { key: "aws.region".to_string(), regex: "^us-".to_string() },
    );
    let result = evaluate_rule(&rule, "test.yaml", &map);
    assert!(result.is_none());
}

#[test]
fn test_value_match_fails() {
    let map = make_map(&[("aws.region", "eu-west-1")]);
    let rule = make_rule(
        "r1",
        PolicySeverity::High,
        CheckDefinition::ValueMatch { key: "aws.region".to_string(), regex: "^us-".to_string() },
    );
    let result = evaluate_rule(&rule, "test.yaml", &map);
    assert!(result.is_some());
    assert!(result.unwrap().message.contains("does not match"));
}

#[test]
fn test_value_match_missing_key_no_violation() {
    let map = make_map(&[("app.name", "test")]);
    let rule = make_rule(
        "r1",
        PolicySeverity::High,
        CheckDefinition::ValueMatch { key: "aws.region".to_string(), regex: "^us-".to_string() },
    );
    let result = evaluate_rule(&rule, "test.yaml", &map);
    assert!(result.is_none());
}

#[test]
fn test_value_enum_valid() {
    let map = make_map(&[("logging.level", "info")]);
    let rule = make_rule(
        "r1",
        PolicySeverity::Medium,
        CheckDefinition::ValueEnum {
            key: "logging.level".to_string(),
            values: vec!["debug".into(), "info".into(), "warn".into(), "error".into()],
        },
    );
    let result = evaluate_rule(&rule, "test.yaml", &map);
    assert!(result.is_none());
}

#[test]
fn test_value_enum_invalid() {
    let map = make_map(&[("logging.level", "trace")]);
    let rule = make_rule(
        "r1",
        PolicySeverity::Medium,
        CheckDefinition::ValueEnum {
            key: "logging.level".to_string(),
            values: vec!["debug".into(), "info".into(), "warn".into(), "error".into()],
        },
    );
    let result = evaluate_rule(&rule, "test.yaml", &map);
    assert!(result.is_some());
    assert!(result.unwrap().message.contains("not in allowed set"));
}

#[test]
fn test_forbidden_value_different() {
    let map = make_map(&[("debug", "false")]);
    let rule = make_rule(
        "r1",
        PolicySeverity::Critical,
        CheckDefinition::ForbiddenValue { key: "debug".to_string(), value: "true".to_string() },
    );
    let result = evaluate_rule(&rule, "test.yaml", &map);
    assert!(result.is_none());
}

#[test]
fn test_forbidden_value_matches() {
    let map = make_map(&[("debug", "true")]);
    let rule = make_rule(
        "r1",
        PolicySeverity::Critical,
        CheckDefinition::ForbiddenValue { key: "debug".to_string(), value: "true".to_string() },
    );
    let result = evaluate_rule(&rule, "test.yaml", &map);
    assert!(result.is_some());
    assert!(result.unwrap().message.contains("Forbidden value"));
}

#[test]
fn test_rule_applies_no_pattern() {
    let rule = make_rule(
        "r1",
        PolicySeverity::Low,
        CheckDefinition::RequiredKey { key: "x".to_string() },
    );
    assert!(rule_applies_to_file(&rule, "anything.yaml"));
}

#[test]
fn test_rule_applies_glob_match() {
    let mut rule = make_rule(
        "r1",
        PolicySeverity::Low,
        CheckDefinition::RequiredKey { key: "x".to_string() },
    );
    rule.pattern = Some("*.yaml".to_string());
    assert!(rule_applies_to_file(&rule, "config.yaml"));
    assert!(!rule_applies_to_file(&rule, "config.json"));
}

#[test]
fn required_key_counts_keys_below_it() {
    let rule = make_rule(
        "needs-logging",
        PolicySeverity::High,
        CheckDefinition::RequiredKey { key: "logging".to_string() },
    );
    let present = make_map(&[("logging.level", "info")]);
    assert!(evaluate_rule(&rule, "app.yaml", &present).is_none());
    let sibling = make_map(&[("loggingx", "info"), ("logging[0]", "a")]);
    assert!(evaluate_rule(&rule, "app.yaml", &sibling).is_some());
    let v = evaluate_rule(&rule, "app.yaml", &FlatConfigMap::new()).unwrap();
    assert!(v.message.contains("missing"));
    assert_eq!(v.message, "Required key 'logging' is missing");
    assert_eq!(v.rule_id, "needs-logging");
    assert_eq!(v.rule_description.as_deref(), Some("needs-logging"));
    assert_eq!(v.severity, PolicySeverity::High);
    assert_eq!(v.file, "app.yaml");
    assert_eq!(v.key, "logging");
}

#[test]
fn value_enum_reports_once_and_only_for_a_key_that_is_there() {
    let rule = make_rule(
        "levels",
        PolicySeverity::Medium,
        CheckDefinition::ValueEnum {
            key: "level".to_string(),
            values: vec!["info".into(), "warn".into()],
        },
    );
    let rules = vec![rule];
    let wrong = make_map(&[("level", "debug")]);
    let found = evaluate_rules(&rules, "a.yaml", &wrong);
    assert_eq!(found.len(), 1);
    assert_eq!(
        found[0].message,
        "Value 'debug' for key 'level' is not in allowed set: [info, warn]"
    );
    let missing = make_map(&[("other", "debug")]);
    assert!(evaluate_rules(&rules, "a.yaml", &missing).is_empty());
    let right = make_map(&[("level", "warn")]);
    assert!(evaluate_rules(&rules, "a.yaml", &right).is_empty());
}

#[test]
fn messages_name_key_value_and_pattern() {
    let map = make_map(&[("debug", "true"), ("region", "eu-1")]);
    let forbidden_key = make_rule(
        "a",
        PolicySeverity::Low,
        CheckDefinition::ForbiddenKey { key: "debug".to_string() },
    );
    assert_eq!(
        evaluate_rule(&forbidden_key, "f.json", &map).unwrap().message,
        "Forbidden key 'debug' is present"
    );
    let value_match = make_rule(
        "b",
        PolicySeverity::Low,
        CheckDefinition::ValueMatch { key: "region".to_string(), regex: "^us-".to_string() },
    );
    assert_eq!(
        evaluate_rule(&value_match, "f.json", &map).unwrap().message,
        "Value 'eu-1' for key 'region' does not match pattern '^us-'"
    );
    let forbidden_value = make_rule(
        "c",
        PolicySeverity::Low,
        CheckDefinition::ForbiddenValue { key: "debug".to_string(), value: "true".to_string() },
    );
    assert_eq!(
        evaluate_rule(&forbidden_value, "f.json", &map).unwrap().message,
        "Forbidden value 'true' found for key 'debug'"
    );
}

#[test]
fn value_match_accepts_a_match_in_the_middle() {
    let map = make_map(&[("name", "my-prod-db")]);
    let rule = make_rule(
        "r",
        PolicySeverity::Low,
        CheckDefinition::ValueMatch { key: "name".to_string(), regex: "prod".to_string() },
    );
    assert!(evaluate_rule(&rule, "f.toml", &map).is_none());
    let exact = make_rule(
        "r",
        PolicySeverity::Low,
        CheckDefinition::ValueMatch { key: "name".to_string(), regex: "^prod$".to_string() },
    );
    assert!(evaluate_rule(&exact, "f.toml", &map).is_some());
}

#[test]
fn pattern_with_slash_is_held_against_the_whole_path() {
    let mut rule = make_rule(
        "r",
        PolicySeverity::Low,
        CheckDefinition::RequiredKey { key: "x".to_string() },
    );
    rule.pattern = Some("conf/*.yaml".to_string());
    assert!(rule_applies_to_file(&rule, "conf/app.yaml"));
    assert!(!rule_applies_to_file(&rule, "other/app.yaml"));
    assert!(!rule_applies_to_file(&rule, "app.yaml"));
    rule.pattern = Some("**/app.yaml".to_string());
    assert!(rule_applies_to_file(&rule, "a/b/app.yaml"));
    assert!(!rule_applies_to_file(&rule, "a/b/other.yaml"));
    rule.pattern = Some("app.*".to_string());
    assert!(rule_applies_to_file(&rule, "deep/down/app.json"));
    assert!(!rule_applies_to_file(&rule, "app/down/x.json"));
}

#[test]
fn pattern_for_names_is_for_no_path_without_a_name() {
    let mut rule = make_rule(
        "r",
        PolicySeverity::Low,
        CheckDefinition::RequiredKey { key: "x".to_string() },
    );
    rule.pattern = Some("*".to_string());
    assert!(!rule_applies_to_file(&rule, ""));
    assert!(!rule_applies_to_file(&rule, "dir/"));
    assert!(!rule_applies_to_file(&rule, ".."));
    assert!(!rule_applies_to_file(&rule, "a/.."));
    assert!(rule_applies_to_file(&rule, "a"));
    assert!(rule_applies_to_file(&rule, "a/..."));
    assert!(rule_applies_to_file(&rule, "a/.b"));
    rule.pattern = Some("..".to_string());
    assert!(!rule_applies_to_file(&rule, "a/.."));
    rule.pattern = Some("**".to_string());
    assert!(rule_applies_to_file(&rule, "a/.."));
    rule.pattern = None;
    assert!(rule_applies_to_file(&rule, ""));
    assert!(rule_applies_to_file(&rule, "a/.."));
}

#[test]
fn rules_are_evaluated_in_their_order_and_only_where_they_apply() {
    let mut yaml_only = make_rule(
        "yaml-only",
        PolicySeverity::Critical,
        CheckDefinition::ForbiddenKey { key: "debug".to_string() },
    );
    yaml_only.pattern = Some("*.yaml".to_string());
    let everywhere = make_rule(
        "everywhere",
        PolicySeverity::Low,
        CheckDefinition::RequiredKey { key: "name".to_string() },
    );
    let rules = vec![yaml_only, everywhere];
    let map = make_map(&[("debug", "true")]);
    let in_yaml: Vec<String> =
        evaluate_rules(&rules, "a.yaml", &map).into_iter().map(|v| v.rule_id).collect();
    assert_eq!(in_yaml, vec!["yaml-only", "everywhere"]);
    let in_json: Vec<String> =
        evaluate_rules(&rules, "a.json", &map).into_iter().map(|v| v.rule_id).collect();
    assert_eq!(in_json, vec!["everywhere"]);
}

fn sample_policy() -> PolicyFile {
    PolicyFile {
        name: "sample".to_string(),
        description: Some("a sample".to_string()),
        rules: vec![
            make_rule(
                "no-debug",
                PolicySeverity::Critical,
                CheckDefinition::ForbiddenValue {
                    key: "debug".to_string(),
                    value: "true".to_string(),
                },
            ),
            make_rule(
                "has-name",
                PolicySeverity::High,
                CheckDefinition::RequiredKey { key: "name".to_string() },
            ),
            make_rule(
                "level",
                default_severity(),
                CheckDefinition::ValueEnum {
                    key: "level".to_string(),
                    values: vec!["info".into()],
                },
            ),
            make_rule(
                "no-tmp",
                PolicySeverity::Low,
                CheckDefinition::ForbiddenKey { key: "tmp".to_string() },
            ),
        ],
    }
}

fn source(path: &str, content: Option<&str>) -> SourceFile {
    SourceFile { path: path.to_string(), data: content.map(|c| c.as_bytes().to_vec()) }
}

#[test]
fn policy_report_counts_files_and_severities() {
    let files = vec![
        source("a.yaml", Some("debug: true\nlevel: trace\ntmp: 1\n")),
        source("b.json", Some("{\"name\": \"b\", \"level\": \"info\"}")),
        source("notes.txt", Some("debug: true")),
        source("broken.json", Some("{")),
        source("unread.toml", None),
        source("c.toml", Some("debug = true\nname = \"c\"\n")),
    ];
    let report = evaluate_policy(&files, &sample_policy(), "2024-01-01T00:00:00+00:00");
    assert_eq!(report.checked_at, "2024-01-01T00:00:00+00:00");
    assert_eq!(report.policy_name, "sample");
    assert_eq!(report.policy_description.as_deref(), Some("a sample"));
    assert_eq!(report.total_files_checked, 5);
    assert_eq!(report.files_with_violations, 2);
    assert_eq!(report.critical_count, 2);
    assert_eq!(report.high_count, 1);
    assert_eq!(report.medium_count, 1);
    assert_eq!(report.low_count, 1);
    assert_eq!(report.total_violations, 5);
    let paths: Vec<&str> = report.files.iter().map(|f| f.path.as_str()).collect();
    assert_eq!(paths, vec!["a.yaml", "c.toml"]);
    let ids: Vec<&str> = report.files[0].violations.iter().map(|v| v.rule_id.as_str()).collect();
    assert_eq!(ids, vec!["no-debug", "has-name", "level", "no-tmp"]);
    assert_eq!(report.files[1].violations.len(), 1);
    assert_eq!(report.files[1].violations[0].severity, PolicySeverity::Critical);
}

#[test]
fn check_policy_refuses_a_policy_that_cannot_be_used() {
    let mut policy = sample_policy();
    policy.rules.push(make_rule(
        "bad",
        PolicySeverity::Low,
        CheckDefinition::ValueMatch { key: "k".to_string(), regex: "(".to_string() },
    ));
    let files = vec![source("a.yaml", Some("debug: true\n"))];
    match check_policy(&files, &policy, "now") {
        Err(PolicyError::InvalidRegex { rule_id, regex }) => {
            assert_eq!(rule_id, "bad");
            assert_eq!(regex, "(");
        }
        other => panic!("unexpected outcome: {:?}", other.map(|r| r.1)),
    }
}

#[test]
fn check_policy_tells_whether_something_was_found() {
    let policy = sample_policy();
    let clean = vec![source("ok.yaml", Some("name: ok\nlevel: info\n"))];
    let (report, found) = check_policy(&clean, &policy, "now").unwrap();
    assert!(!found);
    assert_eq!(report.total_violations, 0);
    assert_eq!(report.total_files_checked, 1);
    assert!(report.files.is_empty());
    let dirty = vec![source("bad.yaml", Some("name: x\ntmp: 1\n"))];
    let (report, found) = check_policy(&dirty, &policy, "now").unwrap();
    assert!(found);
    assert_eq!(report.total_violations, 1);
    assert_eq!(report.low_count, 1);
}

#[test]
fn a_value_is_judged_by_whether_the_expression_matched() {
    let rule = make_rule(
        "r",
        PolicySeverity::Medium,
        CheckDefinition::ValueMatch { key: "k".to_string(), regex: "^a".to_string() },
    );
    let key = "k".to_string();
    let regex = "^a".to_string();
    let value = "b".to_string();
    assert!(judge_value_match(&rule, "f.yaml", &key, &regex, &value, true).is_none());
    let v = judge_value_match(&rule, "f.yaml", &key, &regex, &value, false).unwrap();
    assert_eq!(v.message, "Value 'b' for key 'k' does not match pattern '^a'");
    assert_eq!(v.rule_id, "r");
    assert_eq!(v.file, "f.yaml");
    assert_eq!(v.key, "k");
    assert_eq!(v.severity, PolicySeverity::Medium);
}

#[test]
fn severity_labels_are_in_capitals() {
    assert_eq!(PolicySeverity::Critical.label(), "CRITICAL");
    assert_eq!(PolicySeverity::High.label(), "HIGH");
    assert_eq!(PolicySeverity::Medium.label(), "MEDIUM");
    assert_eq!(PolicySeverity::Low.label(), "LOW");
    assert_eq!(default_severity(), PolicySeverity::Medium);
}
