//! The changes of configuration keys between two states of a file, and
//! the reports that collect them.

use vstd::prelude::*;
use crate::text::opt_text;
use crate::policy::models::Violation;
use crate::policy::models::ViolationView;

verus! {

/// How a key changed between two states of a file.
#[derive(Debug, Clone, Copy, PartialEq, Eq, Structural)]
pub enum KeyChangeKind {
    Added,
    Removed,
    Changed,
}

/// One key that differs between two states of a file.
#[derive(Debug, Clone)]
pub struct KeyChange {
    pub key: String,
    pub kind: KeyChangeKind,
    pub old_value: Option<String>,
    pub new_value: Option<String>,
}

/// A `KeyChange` as plain values.
pub struct KeyChangeView {
    pub key: Seq<char>,
    pub kind: KeyChangeKind,
    pub old_value: Option<Seq<char>>,
    pub new_value: Option<Seq<char>>,
}

impl View for KeyChange {
    type V = KeyChangeView;

    open spec fn view(&self) -> KeyChangeView {
        KeyChangeView {
            key: self.key@,
            kind: self.kind,
            old_value: opt_text(self.old_value),
            new_value: opt_text(self.new_value),
        }
    }
}

impl DeepView for KeyChange {
    type V = KeyChangeView;

    open spec fn deep_view(&self) -> KeyChangeView {
        self@
    }
}

/// The changes of one file between two states.
#[derive(Debug, Clone)]
pub struct FileChanges {
    pub path: String,
    pub keys_added: usize,
    pub keys_removed: usize,
    pub keys_changed: usize,
    pub changes: Vec<KeyChange>,
    pub violations: Vec<Violation>,
}

/// A `FileChanges` as plain values.
pub struct FileChangesView {
    pub path: Seq<char>,
    pub keys_added: nat,
    pub keys_removed: nat,
    pub keys_changed: nat,
    pub changes: Seq<KeyChangeView>,
    pub violations: Seq<ViolationView>,
}

impl View for FileChanges {
    type V = FileChangesView;

    open spec fn view(&self) -> FileChangesView {
        FileChangesView {
            path: self.path@,
            keys_added: self.keys_added as nat,
            keys_removed: self.keys_removed as nat,
            keys_changed: self.keys_changed as nat,
            changes: self.changes.deep_view(),
            violations: self.violations.deep_view(),
        }
    }
}

impl DeepView for FileChanges {
    type V = FileChangesView;

    open spec fn deep_view(&self) -> FileChangesView {
        self@
    }
}

/// The configuration changes that one commit made.
#[derive(Debug, Clone)]
pub struct CommitConfigChanges {
    pub commit_hash: String,
    pub commit_hash_full: String,
    pub author: String,
    pub date: String,
    pub message: String,
    pub files: Vec<FileChanges>,
}

/// A `CommitConfigChanges` as plain values.
pub struct CommitConfigChangesView {
    pub commit_hash: Seq<char>,
    pub commit_hash_full: Seq<char>,
    pub author: Seq<char>,
    pub date: Seq<char>,
    pub message: Seq<char>,
    pub files: Seq<FileChangesView>,
}

impl View for CommitConfigChanges {
    type V = CommitConfigChangesView;

    open spec fn view(&self) -> CommitConfigChangesView {
        CommitConfigChangesView {
            commit_hash: self.commit_hash@,
            commit_hash_full: self.commit_hash_full@,
            author: self.author@,
            date: self.date@,
            message: self.message@,
            files: self.files.deep_view(),
        }
    }
}

impl DeepView for CommitConfigChanges {
    type V = CommitConfigChangesView;

    open spec fn deep_view(&self) -> CommitConfigChangesView {
        self@
    }
}

/// The configuration changes along a commit history, newest first.
#[derive(Debug, Clone)]
pub struct GitLogReport {
    pub repository: String,
    pub path_filter: Option<String>,
    pub commits_analyzed: usize,
    pub commits: Vec<CommitConfigChanges>,
}

/// A `GitLogReport` as plain values.
pub struct GitLogReportView {
    pub repository: Seq<char>,
    pub path_filter: Option<Seq<char>>,
    pub commits_analyzed: nat,
    pub commits: Seq<CommitConfigChangesView>,
}

impl View for GitLogReport {
    type V = GitLogReportView;

    open spec fn view(&self) -> GitLogReportView {
        GitLogReportView {
            repository: self.repository@,
            path_filter: opt_text(self.path_filter),
            commits_analyzed: self.commits_analyzed as nat,
            commits: self.commits.deep_view(),
        }
    }
}

/// The configuration changes between two refs.
#[derive(Debug, Clone)]
pub struct GitDiffReport {
    pub repository: String,
    pub ref_from: String,
    pub ref_to: String,
    pub path_filter: Option<String>,
    pub total_files_changed: usize,
    pub total_keys_added: usize,
    pub total_keys_removed: usize,
    pub total_keys_changed: usize,
    pub files: Vec<FileChanges>,
}

/// A `GitDiffReport` as plain values.
pub struct GitDiffReportView {
    pub repository: Seq<char>,
    pub ref_from: Seq<char>,
    pub ref_to: Seq<char>,
    pub path_filter: Option<Seq<char>>,
    pub total_files_changed: nat,
    pub total_keys_added: nat,
    pub total_keys_removed: nat,
    pub total_keys_changed: nat,
    pub files: Seq<FileChangesView>,
}

impl View for GitDiffReport {
    type V = GitDiffReportView;

    open spec fn view(&self) -> GitDiffReportView {
        GitDiffReportView {
            repository: self.repository@,
            ref_from: self.ref_from@,
            ref_to: self.ref_to@,
            path_filter: opt_text(self.path_filter),
            total_files_changed: self.total_files_changed as nat,
            total_keys_added: self.total_keys_added as nat,
            total_keys_removed: self.total_keys_removed as nat,
            total_keys_changed: self.total_keys_changed as nat,
            files: self.files.deep_view(),
        }
    }
}

} // verus!
