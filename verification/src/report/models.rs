//! The parts of an audit report.

use vstd::prelude::*;
use crate::git::models::GitLogReport;
use crate::git::models::GitLogReportView;
use crate::models::SecretReport;
use crate::models::SecretReportView;
use crate::policy::models::PolicyReport;
use crate::policy::models::PolicyReportView;

verus! {

/// What an audit comes to.
#[derive(Debug, Clone, Copy, PartialEq, Eq, Structural)]
pub enum RiskLevel {
    Pass,
    Warn,
    Fail,
}

impl RiskLevel {
    /// The name of the level in capitals.
    pub open spec fn label_text(self) -> Seq<char> {
        match self {
            RiskLevel::Pass => "PASS"@,
            RiskLevel::Warn => "WARN"@,
            RiskLevel::Fail => "FAIL"@,
        }
    }

    /// The name of the level in capitals, as reports print it.
    pub fn label(&self) -> (s: String)
        ensures
            s@ == self.label_text(),
    {
        match self {
            RiskLevel::Pass => "PASS".to_string(),
            RiskLevel::Warn => "WARN".to_string(),
            RiskLevel::Fail => "FAIL".to_string(),
        }
    }
}

/// The figures at the head of an audit report.
#[derive(Debug, Clone)]
pub struct OverviewSection {
    pub generated_at: String,
    pub path: String,
    pub total_files: usize,
    pub yaml_count: usize,
    pub json_count: usize,
    pub toml_count: usize,
}

/// An `OverviewSection` as plain values.
pub struct OverviewSectionView {
    pub generated_at: Seq<char>,
    pub path: Seq<char>,
    pub total_files: nat,
    pub yaml_count: nat,
    pub json_count: nat,
    pub toml_count: nat,
}

impl View for OverviewSection {
    type V = OverviewSectionView;

    open spec fn view(&self) -> OverviewSectionView {
        OverviewSectionView {
            generated_at: self.generated_at@,
            path: self.path@,
            total_files: self.total_files as nat,
            yaml_count: self.yaml_count as nat,
            json_count: self.json_count as nat,
            toml_count: self.toml_count as nat,
        }
    }
}

/// A configuration file of the inventory: its path, the hash of its
/// content, and its format as its extension names it.
#[derive(Debug, Clone)]
pub struct InventoryEntry {
    pub path: String,
    pub hash: String,
    pub format: String,
}

/// An `InventoryEntry` as plain values.
pub struct InventoryEntryView {
    pub path: Seq<char>,
    pub hash: Seq<char>,
    pub format: Seq<char>,
}

impl View for InventoryEntry {
    type V = InventoryEntryView;

    open spec fn view(&self) -> InventoryEntryView {
        InventoryEntryView { path: self.path@, hash: self.hash@, format: self.format@ }
    }
}

impl DeepView for InventoryEntry {
    type V = InventoryEntryView;

    open spec fn deep_view(&self) -> InventoryEntryView {
        self@
    }
}

/// The audit of the configuration files under a directory: what there
/// is, what secrets were found, what a policy found, and what changed of
/// late.
#[derive(Debug, Clone)]
pub struct AuditReport {
    pub overview: OverviewSection,
    pub inventory: Vec<InventoryEntry>,
    pub secrets: Option<SecretReport>,
    pub policy: Option<PolicyReport>,
    pub git_changes: Option<GitLogReport>,
    pub risk_level: RiskLevel,
    pub risk_summary: String,
}

/// An `AuditReport` as plain values.
pub struct AuditReportView {
    pub overview: OverviewSectionView,
    pub inventory: Seq<InventoryEntryView>,
    pub secrets: Option<SecretReportView>,
    pub policy: Option<PolicyReportView>,
    pub git_changes: Option<GitLogReportView>,
    pub risk_level: RiskLevel,
    pub risk_summary: Seq<char>,
}

/// The view of an optional report on secrets.
pub open spec fn opt_secrets(r: Option<SecretReport>) -> Option<SecretReportView> {
    match r {
        Some(x) => Some(x@),
        None => None,
    }
}

/// The view of an optional report on a policy.
pub open spec fn opt_policy(r: Option<PolicyReport>) -> Option<PolicyReportView> {
    match r {
        Some(x) => Some(x@),
        None => None,
    }
}

/// The view of an optional log.
pub open spec fn opt_log(r: Option<GitLogReport>) -> Option<GitLogReportView> {
    match r {
        Some(x) => Some(x@),
        None => None,
    }
}

impl View for AuditReport {
    type V = AuditReportView;

    open spec fn view(&self) -> AuditReportView {
        AuditReportView {
            overview: self.overview@,
            inventory: self.inventory.deep_view(),
            secrets: opt_secrets(self.secrets),
            policy: opt_policy(self.policy),
            git_changes: opt_log(self.git_changes),
            risk_level: self.risk_level,
            risk_summary: self.risk_summary@,
        }
    }
}

} // verus!
