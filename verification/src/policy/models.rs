//! Policy rules and the findings that their evaluation produces.

use vstd::prelude::*;
use crate::text::opt_text;
use crate::text::text_of_bytes;
use crate::text::utf8_text;

verus! {

/// How serious a violation of a rule is.
#[derive(Debug, Clone, Copy, PartialEq, Eq, Structural)]
pub enum PolicySeverity {
    Critical,
    High,
    Medium,
    Low,
}

impl PolicySeverity {
    /// The name of the level in capitals.
    pub open spec fn label_text(self) -> Seq<char> {
        match self {
            PolicySeverity::Critical => "CRITICAL"@,
            PolicySeverity::High => "HIGH"@,
            PolicySeverity::Medium => "MEDIUM"@,
            PolicySeverity::Low => "LOW"@,
        }
    }

    /// The name of the level in capitals, as reports print it.
    pub fn label(&self) -> (s: String)
        ensures
            s@ == self.label_text(),
    {
        match self {
            PolicySeverity::Critical => "CRITICAL".to_string(),
            PolicySeverity::High => "HIGH".to_string(),
            PolicySeverity::Medium => "MEDIUM".to_string(),
            PolicySeverity::Low => "LOW".to_string(),
        }
    }
}

/// The severity of a rule that names none.
pub fn default_severity() -> (s: PolicySeverity)
    ensures
        s == PolicySeverity::Medium,
{
    PolicySeverity::Medium
}

/// What a rule asks of a flat configuration map.
#[derive(Debug, Clone)]
pub enum CheckDefinition {
    /// The key, or a key below it, must be there.
    RequiredKey { key: String },
    /// Neither the key nor a key below it may be there.
    ForbiddenKey { key: String },
    /// If the key is there, its value must match the regular expression.
    ValueMatch { key: String, regex: String },
    /// If the key is there, its value must be one of `values`.
    ValueEnum { key: String, values: Vec<String> },
    /// The key must not have this value.
    ForbiddenValue { key: String, value: String },
}

impl CheckDefinition {
    /// The key that the check is about.
    pub open spec fn key_text(self) -> Seq<char> {
        match self {
            CheckDefinition::RequiredKey { key } => key@,
            CheckDefinition::ForbiddenKey { key } => key@,
            CheckDefinition::ValueMatch { key, .. } => key@,
            CheckDefinition::ValueEnum { key, .. } => key@,
            CheckDefinition::ForbiddenValue { key, .. } => key@,
        }
    }
}

/// One rule of a policy.
#[derive(Debug, Clone)]
pub struct RuleDefinition {
    pub id: String,
    pub description: Option<String>,
    pub severity: PolicySeverity,
    /// The files that the rule is for, as a glob; `None` is every file.
    pub pattern: Option<String>,
    pub check: CheckDefinition,
}

/// A named list of rules.
#[derive(Debug, Clone)]
pub struct PolicyFile {
    pub name: String,
    pub description: Option<String>,
    pub rules: Vec<RuleDefinition>,
}

/// A rule that a file does not meet.
#[derive(Debug, Clone)]
pub struct Violation {
    pub rule_id: String,
    pub rule_description: Option<String>,
    pub severity: PolicySeverity,
    pub file: String,
    pub key: String,
    pub message: String,
}

/// A `Violation` as plain values.
pub struct ViolationView {
    pub rule_id: Seq<char>,
    pub rule_description: Option<Seq<char>>,
    pub severity: PolicySeverity,
    pub file: Seq<char>,
    pub key: Seq<char>,
    pub message: Seq<char>,
}

impl View for Violation {
    type V = ViolationView;

    open spec fn view(&self) -> ViolationView {
        ViolationView {
            rule_id: self.rule_id@,
            rule_description: opt_text(self.rule_description),
            severity: self.severity,
            file: self.file@,
            key: self.key@,
            message: self.message@,
        }
    }
}

impl DeepView for Violation {
    type V = ViolationView;

    open spec fn deep_view(&self) -> ViolationView {
        self@
    }
}

/// The violations found in one file.
#[derive(Debug, Clone)]
pub struct FileViolations {
    pub path: String,
    pub violations: Vec<Violation>,
}

/// A `FileViolations` as plain values.
pub struct FileViolationsView {
    pub path: Seq<char>,
    pub violations: Seq<ViolationView>,
}

impl View for FileViolations {
    type V = FileViolationsView;

    open spec fn view(&self) -> FileViolationsView {
        FileViolationsView { path: self.path@, violations: self.violations.deep_view() }
    }
}

impl DeepView for FileViolations {
    type V = FileViolationsView;

    open spec fn deep_view(&self) -> FileViolationsView {
        self@
    }
}

/// What the evaluation of a policy over a set of files found.
#[derive(Debug, Clone)]
pub struct PolicyReport {
    pub checked_at: String,
    pub policy_name: String,
    pub policy_description: Option<String>,
    pub total_files_checked: usize,
    pub files_with_violations: usize,
    pub total_violations: usize,
    pub critical_count: usize,
    pub high_count: usize,
    pub medium_count: usize,
    pub low_count: usize,
    pub files: Vec<FileViolations>,
}

/// A `PolicyReport` as plain values.
pub struct PolicyReportView {
    pub checked_at: Seq<char>,
    pub policy_name: Seq<char>,
    pub policy_description: Option<Seq<char>>,
    pub total_files_checked: nat,
    pub files_with_violations: nat,
    pub total_violations: nat,
    pub critical_count: nat,
    pub high_count: nat,
    pub medium_count: nat,
    pub low_count: nat,
    pub files: Seq<FileViolationsView>,
}

impl View for PolicyReport {
    type V = PolicyReportView;

    open spec fn view(&self) -> PolicyReportView {
        PolicyReportView {
            checked_at: self.checked_at@,
            policy_name: self.policy_name@,
            policy_description: opt_text(self.policy_description),
            total_files_checked: self.total_files_checked as nat,
            files_with_violations: self.files_with_violations as nat,
            total_violations: self.total_violations as nat,
            critical_count: self.critical_count as nat,
            high_count: self.high_count as nat,
            medium_count: self.medium_count as nat,
            low_count: self.low_count as nat,
            files: self.files.deep_view(),
        }
    }
}

/// A file that was found where configuration files are looked for: its
/// path, and its bytes where it could be read.
#[derive(Debug, Clone)]
pub struct SourceFile {
    pub path: String,
    pub data: Option<Vec<u8>>,
}

impl SourceFile {
    /// The text of the file; none where it could not be read, and none
    /// where its bytes are not UTF-8.
    pub open spec fn text(self) -> Option<Seq<char>> {
        match self.data {
            Some(d) => text_of_bytes(d@),
            None => None,
        }
    }

    /// The text of the file, if it has one.
    pub fn read_text(&self) -> (r: Option<String>)
        ensures
            opt_text(r) == self.text(),
    {
        match &self.data {
            Some(d) => match utf8_text(d.as_slice()) {
                Some(t) => Some(t.to_string()),
                None => None,
            },
            None => None,
        }
    }
}

} // verus!
