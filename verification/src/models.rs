//! Snapshots of configuration files and the findings of the search for
//! secrets.

use vstd::prelude::*;

verus! {

/// A configuration file of a snapshot: its path and the hash of its
/// content.
#[derive(Debug, Clone)]
pub struct Entry {
    pub path: String,
    pub hash: String,
}

/// An `Entry` as plain values.
pub struct EntryView {
    pub path: Seq<char>,
    pub hash: Seq<char>,
}

impl View for Entry {
    type V = EntryView;

    open spec fn view(&self) -> EntryView {
        EntryView { path: self.path@, hash: self.hash@ }
    }
}

impl DeepView for Entry {
    type V = EntryView;

    open spec fn deep_view(&self) -> EntryView {
        self@
    }
}

/// The configuration files that were found at one time.
#[derive(Debug, Clone)]
pub struct Snapshot {
    pub created_at: String,
    pub entries: Vec<Entry>,
}

/// A `Snapshot` as plain values.
pub struct SnapshotView {
    pub created_at: Seq<char>,
    pub entries: Seq<EntryView>,
}

impl View for Snapshot {
    type V = SnapshotView;

    open spec fn view(&self) -> SnapshotView {
        SnapshotView { created_at: self.created_at@, entries: self.entries.deep_view() }
    }
}

/// A file as it was read: its path and its bytes.
#[derive(Debug, Clone)]
pub struct FileData {
    pub path: String,
    pub data: Vec<u8>,
}

/// What kind of secret a pattern is after.
#[derive(Debug, Clone, Copy, PartialEq, Eq, Structural)]
pub enum SecretType {
    AwsAccessKey,
    AwsSecretKey,
    GcpServiceAccount,
    PrivateKey,
    GithubToken,
    JwtToken,
    DatabaseUrl,
    GenericPassword,
    GenericApiKey,
}

/// How serious a secret in a file is.
#[derive(Debug, Clone, Copy, PartialEq, Eq, Structural)]
pub enum Severity {
    Critical,
    High,
}

/// A place in a file at which a pattern found a secret.
#[derive(Debug, Clone)]
pub struct SecretFinding {
    pub secret_type: SecretType,
    pub severity: Severity,
    pub line: usize,
    pub snippet: String,
    pub matched_pattern: String,
}

/// A `SecretFinding` as plain values.
pub struct SecretFindingView {
    pub secret_type: SecretType,
    pub severity: Severity,
    pub line: nat,
    pub snippet: Seq<char>,
    pub matched_pattern: Seq<char>,
}

impl View for SecretFinding {
    type V = SecretFindingView;

    open spec fn view(&self) -> SecretFindingView {
        SecretFindingView {
            secret_type: self.secret_type,
            severity: self.severity,
            line: self.line as nat,
            snippet: self.snippet@,
            matched_pattern: self.matched_pattern@,
        }
    }
}

impl DeepView for SecretFinding {
    type V = SecretFindingView;

    open spec fn deep_view(&self) -> SecretFindingView {
        self@
    }
}

/// The secrets found in one file.
#[derive(Debug, Clone)]
pub struct FileSecrets {
    pub path: String,
    pub findings: Vec<SecretFinding>,
}

/// A `FileSecrets` as plain values.
pub struct FileSecretsView {
    pub path: Seq<char>,
    pub findings: Seq<SecretFindingView>,
}

impl View for FileSecrets {
    type V = FileSecretsView;

    open spec fn view(&self) -> FileSecretsView {
        FileSecretsView { path: self.path@, findings: self.findings.deep_view() }
    }
}

impl DeepView for FileSecrets {
    type V = FileSecretsView;

    open spec fn deep_view(&self) -> FileSecretsView {
        self@
    }
}

/// What the search for secrets in a set of files found.
#[derive(Debug, Clone)]
pub struct SecretReport {
    pub scanned_at: String,
    pub total_files: usize,
    pub files_with_secrets: usize,
    pub total_findings: usize,
    pub critical_count: usize,
    pub high_count: usize,
    pub files: Vec<FileSecrets>,
}

/// A `SecretReport` as plain values.
pub struct SecretReportView {
    pub scanned_at: Seq<char>,
    pub total_files: nat,
    pub files_with_secrets: nat,
    pub total_findings: nat,
    pub critical_count: nat,
    pub high_count: nat,
    pub files: Seq<FileSecretsView>,
}

impl View for SecretReport {
    type V = SecretReportView;

    open spec fn view(&self) -> SecretReportView {
        SecretReportView {
            scanned_at: self.scanned_at@,
            total_files: self.total_files as nat,
            files_with_secrets: self.files_with_secrets as nat,
            total_findings: self.total_findings as nat,
            critical_count: self.critical_count as nat,
            high_count: self.high_count as nat,
            files: self.files.deep_view(),
        }
    }
}

} // verus!
