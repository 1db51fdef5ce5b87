//! The evaluation of rules against the flat map of a file.

use vstd::prelude::*;
use crate::flat::has_key_under;
use crate::flat::FlatConfigMap;
use crate::text::opt_text;
use crate::policy::models::CheckDefinition;
use crate::policy::models::FileViolations;
use crate::policy::models::FileViolationsView;
use crate::policy::models::PolicyFile;
use crate::policy::models::PolicyReport;
use crate::policy::models::PolicyReportView;
use crate::policy::models::PolicySeverity;
use crate::policy::models::RuleDefinition;
use crate::policy::models::SourceFile;
use crate::policy::models::Violation;
use crate::policy::models::ViolationView;
use crate::policy::parser::map_of_text;
use crate::policy::parser::text_map;
use crate::utils::add_capped;
use crate::utils::capped;
use crate::utils::is_config;
use crate::utils::is_config_path;
use crate::utils::lemma_capped_sum;
use crate::policy::patterns::glob_compiles;
use crate::policy::patterns::glob_is_match;
use crate::policy::patterns::glob_matches;
use crate::policy::patterns::regex_compiles;
use crate::policy::patterns::regex_finds;
use crate::policy::patterns::regex_is_match;
use crate::text::contains_char;
use crate::text::contains_text;
use crate::text::file_name;
use crate::text::file_name_of;
use crate::text::has_substring;
use crate::text::join;
use crate::text::joined;
use crate::text::list_contains;
use crate::text::str_eq;
use crate::text::string_views;

verus! {

/// The glob pattern of the rule, if it has one, is well formed.
pub open spec fn pattern_compiles(rule: RuleDefinition) -> bool {
    rule.pattern matches Some(p) ==> glob_compiles(p@)
}

/// The regular expression of the check, if it has one, is well formed.
pub open spec fn check_compiles(check: CheckDefinition) -> bool {
    check matches CheckDefinition::ValueMatch { regex, .. } ==> regex_compiles(regex@)
}

/// A pattern with `/` or `**` in it is held against the whole path, any
/// other against the name of the file.
pub open spec fn matches_whole_path(pattern: Seq<char>) -> bool {
    pattern.contains('/') || has_substring(pattern, "**"@)
}

/// Whether a rule is for the file at `path`: a rule without a pattern is
/// for every file, and a pattern for names is for no path that ends in
/// `/` or in the name `..`, which names no file.
pub open spec fn rule_applies(rule: RuleDefinition, path: Seq<char>) -> bool {
    match rule.pattern {
        None => true,
        Some(p) => if matches_whole_path(p@) {
            glob_matches(p@, path)
        } else if file_name(path).len() == 0 || file_name(path) == ".."@ {
            false
        } else {
            glob_matches(p@, file_name(path))
        },
    }
}

/// Whether the rule is for the file at `file_path`.
pub fn rule_applies_to_file(rule: &RuleDefinition, file_path: &str) -> (r: bool)
    requires
        pattern_compiles(*rule),
    ensures
        r == rule_applies(*rule, file_path@),
{
    match &rule.pattern {
        None => true,
        Some(pat) => {
            if contains_char(pat.as_str(), '/') || contains_text(pat.as_str(), "**") {
                glob_is_match(pat.as_str(), file_path)
            } else {
                let name = file_name_of(file_path);
                proof {
                    reveal_strlit("");
                    assert(name@.len() == 0 <==> name@ =~= ""@);
                }
                if str_eq(name, "") || str_eq(name, "..") {
                    false
                } else {
                    glob_is_match(pat.as_str(), name)
                }
            }
        },
    }
}

/// A key counts as present where the map has it, or has a key below it.
pub open spec fn key_present(map: Map<Seq<char>, Seq<char>>, key: Seq<char>) -> bool {
    map.contains_key(key) || has_key_under(map, key + "."@)
}

/// Whether a map fails a check.
pub open spec fn check_violated(check: CheckDefinition, map: Map<Seq<char>, Seq<char>>) -> bool {
    match check {
        CheckDefinition::RequiredKey { key } => !key_present(map, key@),
        CheckDefinition::ForbiddenKey { key } => key_present(map, key@),
        CheckDefinition::ValueMatch { key, regex } => map.contains_key(key@) && !regex_finds(
            regex@,
            map[key@],
        ),
        CheckDefinition::ValueEnum { key, values } => map.contains_key(key@) && !string_views(
            values@,
        ).contains(map[key@]),
        CheckDefinition::ForbiddenValue { key, value } => map.contains_key(key@) && map[key@]
            == value@,
    }
}

/// What a violation of the check says.
pub open spec fn violation_message(
    check: CheckDefinition,
    map: Map<Seq<char>, Seq<char>>,
) -> Seq<char> {
    match check {
        CheckDefinition::RequiredKey { key } => "Required key '"@ + key@ + "' is missing"@,
        CheckDefinition::ForbiddenKey { key } => "Forbidden key '"@ + key@ + "' is present"@,
        CheckDefinition::ValueMatch { key, regex } => "Value '"@ + map[key@] + "' for key '"@
            + key@ + "' does not match pattern '"@ + regex@ + "'"@,
        CheckDefinition::ValueEnum { key, values } => "Value '"@ + map[key@] + "' for key '"@
            + key@ + "' is not in allowed set: ["@ + joined(string_views(values@), ", "@) + "]"@,
        CheckDefinition::ForbiddenValue { key, value } => "Forbidden value '"@ + value@
            + "' found for key '"@ + key@ + "'"@,
    }
}

/// The violation that a rule reports for a file whose map fails its check.
pub open spec fn violation_of(
    rule: RuleDefinition,
    file: Seq<char>,
    map: Map<Seq<char>, Seq<char>>,
) -> ViolationView {
    ViolationView {
        rule_id: rule.id@,
        rule_description: opt_text(rule.description),
        severity: rule.severity,
        file: file,
        key: rule.check.key_text(),
        message: violation_message(rule.check, map),
    }
}

/// What the evaluation of a rule against the map of a file gives: a
/// violation where the map fails the check, nothing where it meets it.
pub open spec fn evaluation(
    rule: RuleDefinition,
    file: Seq<char>,
    map: Map<Seq<char>, Seq<char>>,
) -> Option<ViolationView> {
    if check_violated(rule.check, map) {
        Some(violation_of(rule, file, map))
    } else {
        None
    }
}

/// The plain values of an optional violation.
pub open spec fn opt_violation(v: Option<Violation>) -> Option<ViolationView> {
    match v {
        Some(x) => Some(x@),
        None => None,
    }
}

fn clone_opt(s: &Option<String>) -> (r: Option<String>)
    ensures
        opt_text(r) == opt_text(*s),
{
    match s {
        Some(t) => Some(t.clone()),
        None => None,
    }
}

fn key_exists(map: &FlatConfigMap, key: &str) -> (r: bool)
    ensures
        r == key_present(map@, key@),
{
    if map.contains_key(key) {
        true
    } else {
        let mut below = key.to_string();
        below.append(".");
        map.has_key_with_prefix(below.as_str())
    }
}

fn report(rule: &RuleDefinition, file_path: &str, key: &String, message: String) -> (v: Violation)
    ensures
        v@ == (ViolationView {
            rule_id: rule.id@,
            rule_description: opt_text(rule.description),
            severity: rule.severity,
            file: file_path@,
            key: key@,
            message: message@,
        }),
{
    Violation {
        rule_id: rule.id.clone(),
        rule_description: clone_opt(&rule.description),
        severity: rule.severity,
        file: file_path.to_string(),
        key: key.clone(),
        message,
    }
}

/// What a rule on the match of a value reports, once it is known whether
/// the regular expression matched the value: nothing where it did.
pub open spec fn value_match_outcome(
    rule: RuleDefinition,
    file: Seq<char>,
    key: Seq<char>,
    regex: Seq<char>,
    value: Seq<char>,
    found: bool,
) -> Option<ViolationView> {
    if found {
        None
    } else {
        Some(
            ViolationView {
                rule_id: rule.id@,
                rule_description: opt_text(rule.description),
                severity: rule.severity,
                file: file,
                key: key,
                message: "Value '"@ + value + "' for key '"@ + key
                    + "' does not match pattern '"@ + regex + "'"@,
            },
        )
    }
}

/// Judges a value by whether the regular expression of a rule matched it.
pub fn judge_value_match(
    rule: &RuleDefinition,
    file_path: &str,
    key: &String,
    regex: &String,
    value: &String,
    found: bool,
) -> (r: Option<Violation>)
    ensures
        opt_violation(r) == value_match_outcome(*rule, file_path@, key@, regex@, value@, found),
{
    if found {
        None
    } else {
        let mut message = "Value '".to_string();
        message.append(value.as_str());
        message.append("' for key '");
        message.append(key.as_str());
        message.append("' does not match pattern '");
        message.append(regex.as_str());
        message.append("'");
        Some(report(rule, file_path, key, message))
    }
}

/// Evaluates one rule against the flat map of one file.
pub fn evaluate_rule(rule: &RuleDefinition, file_path: &str, flat_map: &FlatConfigMap) -> (r:
    Option<Violation>)
    requires
        check_compiles(rule.check),
    ensures
        opt_violation(r) == evaluation(*rule, file_path@, flat_map@),
{
    match &rule.check {
        CheckDefinition::RequiredKey { key } => {
            if !key_exists(flat_map, key.as_str()) {
                let mut message = "Required key '".to_string();
                message.append(key.as_str());
                message.append("' is missing");
                return Some(report(rule, file_path, key, message));
            }
        },
        CheckDefinition::ForbiddenKey { key } => {
            if key_exists(flat_map, key.as_str()) {
                let mut message = "Forbidden key '".to_string();
                message.append(key.as_str());
                message.append("' is present");
                return Some(report(rule, file_path, key, message));
            }
        },
        CheckDefinition::ValueMatch { key, regex } => {
            if let Some(value) = flat_map.get(key.as_str()) {
                let found = regex_is_match(regex.as_str(), value.as_str());
                return judge_value_match(rule, file_path, key, regex, value, found);
            }
        },
        CheckDefinition::ValueEnum { key, values } => {
            if let Some(value) = flat_map.get(key.as_str()) {
                if !list_contains(values, value.as_str()) {
                    let mut message = "Value '".to_string();
                    message.append(value.as_str());
                    message.append("' for key '");
                    message.append(key.as_str());
                    message.append("' is not in allowed set: [");
                    message.append(join(values, ", ").as_str());
                    message.append("]");
                    return Some(report(rule, file_path, key, message));
                }
            }
        },
        CheckDefinition::ForbiddenValue { key, value } => {
            if let Some(actual) = flat_map.get(key.as_str()) {
                if str_eq(actual.as_str(), value.as_str()) {
                    let mut message = "Forbidden value '".to_string();
                    message.append(value.as_str());
                    message.append("' found for key '");
                    message.append(key.as_str());
                    message.append("'");
                    return Some(report(rule, file_path, key, message));
                }
            }
        },
    }
    None
}

/// The violations that a list of rules reports for a file, in the order
/// of the rules: one for each rule that is for the file and whose check
/// the map fails.
pub open spec fn violations_from(
    rules: Seq<RuleDefinition>,
    file: Seq<char>,
    map: Map<Seq<char>, Seq<char>>,
) -> Seq<ViolationView>
    decreases rules.len(),
{
    if rules.len() == 0 {
        Seq::empty()
    } else {
        let before = violations_from(rules.drop_last(), file, map);
        let rule = rules.last();
        if rule_applies(rule, file) && check_violated(rule.check, map) {
            before.push(violation_of(rule, file, map))
        } else {
            before
        }
    }
}

/// A rule reports at most once for a file: there are no more violations
/// than rules.
pub proof fn lemma_one_violation_per_rule(
    rules: Seq<RuleDefinition>,
    file: Seq<char>,
    map: Map<Seq<char>, Seq<char>>,
)
    ensures
        violations_from(rules, file, map).len() <= rules.len(),
    decreases rules.len(),
{
    if rules.len() > 0 {
        lemma_one_violation_per_rule(rules.drop_last(), file, map);
    }
}

/// Every rule of the list has well-formed patterns.
pub open spec fn rules_compile(rules: Seq<RuleDefinition>) -> bool {
    forall|i: int|
        0 <= i < rules.len() ==> pattern_compiles(#[trigger] rules[i]) && check_compiles(
            rules[i].check,
        )
}

/// Evaluates the rules that are for the file against its flat map.
pub fn evaluate_rules(rules: &Vec<RuleDefinition>, file_path: &str, flat_map: &FlatConfigMap) -> (r:
    Vec<Violation>)
    requires
        rules_compile(rules@),
    ensures
        r.deep_view() == violations_from(rules@, file_path@, flat_map@),
{
    let mut violations: Vec<Violation> = Vec::new();
    let mut i: usize = 0;
    assert(rules@.take(0) =~= Seq::<RuleDefinition>::empty());
    assert(violations.deep_view() =~= Seq::<ViolationView>::empty());
    while i < rules.len()
        invariant
            i <= rules@.len(),
            rules_compile(rules@),
            violations.deep_view() == violations_from(
                rules@.take(i as int),
                file_path@,
                flat_map@,
            ),
        decreases rules@.len() - i,
    {
        let rule = &rules[i];
        let ghost before = violations.deep_view();
        assert(rules@.take(i + 1).drop_last() =~= rules@.take(i as int));
        assert(rules@.take(i + 1).last() == *rule);
        if rule_applies_to_file(rule, file_path) {
            if let Some(v) = evaluate_rule(rule, file_path, flat_map) {
                let ghost vv = v@;
                violations.push(v);
                assert(violations.deep_view() =~= before.push(vv));
            }
        }
        i += 1;
    }
    assert(rules@.take(rules@.len() as int) =~= rules@);
    violations
}

/// What the rules find in a file: nothing in a file that is no
/// configuration file, could not be read, or does not parse.
pub open spec fn source_violations(file: SourceFile, rules: Seq<RuleDefinition>) -> Seq<
    ViolationView,
> {
    if !is_config_path(file.path@) {
        Seq::empty()
    } else {
        match text_map(file.text(), file.path@) {
            Some(m) => violations_from(rules, file.path@, m),
            None => Seq::empty(),
        }
    }
}

/// The files among the first `n` in which the rules find something, each
/// with what they find, in the order of the files.
pub open spec fn reported_files(files: Seq<SourceFile>, rules: Seq<RuleDefinition>, n: nat) -> Seq<
    FileViolationsView,
>
    decreases n,
{
    if n == 0 {
        Seq::empty()
    } else {
        let before = reported_files(files, rules, (n - 1) as nat);
        let found = source_violations(files[n - 1], rules);
        if found.len() == 0 {
            before
        } else {
            before.push(FileViolationsView { path: files[n - 1].path@, violations: found })
        }
    }
}

/// How many of the first `n` files are configuration files.
pub open spec fn checked_count(files: Seq<SourceFile>, n: nat) -> nat
    decreases n,
{
    if n == 0 {
        0
    } else {
        checked_count(files, (n - 1) as nat) + if is_config_path(files[n - 1].path@) {
            1nat
        } else {
            0nat
        }
    }
}

/// How many of the violations are of the given severity.
pub open spec fn count_severity(violations: Seq<ViolationView>, severity: PolicySeverity) -> nat
    decreases violations.len(),
{
    if violations.len() == 0 {
        0
    } else {
        count_severity(violations.drop_last(), severity) + if violations.last().severity
            == severity {
            1nat
        } else {
            0nat
        }
    }
}

/// How many violations of the given severity the files have together.
pub open spec fn total_severity(files: Seq<FileViolationsView>, severity: PolicySeverity) -> nat
    decreases files.len(),
{
    if files.len() == 0 {
        0
    } else {
        total_severity(files.drop_last(), severity) + count_severity(
            files.last().violations,
            severity,
        )
    }
}

/// The report of a policy on a list of files. A count that does not fit
/// `usize` is given as the greatest `usize`.
pub open spec fn policy_report(
    files: Seq<SourceFile>,
    policy: PolicyFile,
    checked_at: Seq<char>,
) -> PolicyReportView {
    let reported = reported_files(files, policy.rules@, files.len());
    let critical = total_severity(reported, PolicySeverity::Critical);
    let high = total_severity(reported, PolicySeverity::High);
    let medium = total_severity(reported, PolicySeverity::Medium);
    let low = total_severity(reported, PolicySeverity::Low);
    PolicyReportView {
        checked_at: checked_at,
        policy_name: policy.name@,
        policy_description: opt_text(policy.description),
        total_files_checked: checked_count(files, files.len()),
        files_with_violations: reported.len(),
        total_violations: capped(critical + high + medium + low),
        critical_count: capped(critical),
        high_count: capped(high),
        medium_count: capped(medium),
        low_count: capped(low),
        files: reported,
    }
}

fn count_by_severity(violations: &Vec<Violation>, severity: PolicySeverity) -> (n: usize)
    ensures
        n == count_severity(violations.deep_view(), severity),
{
    let ghost all = violations.deep_view();
    let mut n: usize = 0;
    let mut i: usize = 0;
    while i < violations.len()
        invariant
            i <= violations@.len(),
            all == violations.deep_view(),
            n <= i,
            n == count_severity(all.take(i as int), severity),
        decreases violations@.len() - i,
    {
        assert(all.take(i + 1).drop_last() =~= all.take(i as int));
        assert(all.take(i + 1).last() == violations@[i as int]@);
        if violations[i].severity == severity {
            n += 1;
        }
        i += 1;
    }
    assert(all.take(violations@.len() as int) =~= all);
    n
}

/// What the rules find in one file.
fn evaluate_source(file: &SourceFile, rules: &Vec<RuleDefinition>) -> (r: Vec<Violation>)
    requires
        rules_compile(rules@),
    ensures
        r.deep_view() == source_violations(*file, rules@),
{
    if is_config(file.path.as_str()) {
        let text = file.read_text();
        if let Some(map) = map_of_text(&text, file.path.as_str()) {
            return evaluate_rules(rules, file.path.as_str(), &map);
        }
    }
    let none: Vec<Violation> = Vec::new();
    assert(none.deep_view() =~= Seq::<ViolationView>::empty());
    none
}

/// Evaluates the rules of a policy on every configuration file of a
/// list. A file that could not be read or does not parse counts as
/// checked and has no violations.
pub fn evaluate_policy(files: &Vec<SourceFile>, policy: &PolicyFile, checked_at: &str) -> (report:
    PolicyReport)
    requires
        rules_compile(policy.rules@),
    ensures
        report@ == policy_report(files@, *policy, checked_at@),
{
    let ghost rules = policy.rules@;
    let mut reported: Vec<FileViolations> = Vec::new();
    let mut total_files: usize = 0;
    let mut critical_count: usize = 0;
    let mut high_count: usize = 0;
    let mut medium_count: usize = 0;
    let mut low_count: usize = 0;
    assert(reported.deep_view() =~= Seq::<FileViolationsView>::empty());
    let mut i: usize = 0;
    while i < files.len()
        invariant
            i <= files@.len(),
            rules == policy.rules@,
            rules_compile(rules),
            total_files <= i,
            total_files == checked_count(files@, i as nat),
            reported.deep_view() == reported_files(files@, rules, i as nat),
            critical_count == capped(total_severity(reported.deep_view(), PolicySeverity::Critical)),
            high_count == capped(total_severity(reported.deep_view(), PolicySeverity::High)),
            medium_count == capped(total_severity(reported.deep_view(), PolicySeverity::Medium)),
            low_count == capped(total_severity(reported.deep_view(), PolicySeverity::Low)),
        decreases files@.len() - i,
    {
        let file = &files[i];
        if is_config(file.path.as_str()) {
            total_files += 1;
        }
        let violations = evaluate_source(file, &policy.rules);
        if violations.len() > 0 {
            let ghost before = reported.deep_view();
            let ghost found = violations.deep_view();
            critical_count =
            add_capped(critical_count, count_by_severity(&violations, PolicySeverity::Critical));
            high_count =
            add_capped(high_count, count_by_severity(&violations, PolicySeverity::High));
            medium_count =
            add_capped(medium_count, count_by_severity(&violations, PolicySeverity::Medium));
            low_count = add_capped(low_count, count_by_severity(&violations, PolicySeverity::Low));
            let entry = FileViolations { path: file.path.clone(), violations };
            let ghost ev = entry@;
            reported.push(entry);
            proof {
                let after = reported.deep_view();
                assert(after =~= before.push(ev));
                assert(after.drop_last() =~= before);
                lemma_capped_sum(
                    total_severity(before, PolicySeverity::Critical),
                    count_severity(found, PolicySeverity::Critical),
                );
                lemma_capped_sum(
                    total_severity(before, PolicySeverity::High),
                    count_severity(found, PolicySeverity::High),
                );
                lemma_capped_sum(
                    total_severity(before, PolicySeverity::Medium),
                    count_severity(found, PolicySeverity::Medium),
                );
                lemma_capped_sum(
                    total_severity(before, PolicySeverity::Low),
                    count_severity(found, PolicySeverity::Low),
                );
            }
        }
        i += 1;
    }
    let total = add_capped(
        add_capped(add_capped(critical_count, high_count), medium_count),
        low_count,
    );
    PolicyReport {
        checked_at: checked_at.to_string(),
        policy_name: policy.name.clone(),
        policy_description: clone_opt(&policy.description),
        total_files_checked: total_files,
        files_with_violations: reported.len(),
        total_violations: total,
        critical_count,
        high_count,
        medium_count,
        low_count,
        files: reported,
    }
}

} // verus!
