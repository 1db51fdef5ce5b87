//! Configuration changes along a commit history and between two refs.

pub mod differ;
pub mod models;
pub mod repo;

use vstd::prelude::*;
use crate::flat::FlatConfigMap;
use crate::git::differ::diff_config_maps;
use crate::git::differ::diff_of;
use crate::git::differ::lemma_diff_of;
use crate::git::models::CommitConfigChanges;
use crate::git::models::CommitConfigChangesView;
use crate::git::models::FileChanges;
use crate::git::models::FileChangesView;
use crate::git::models::GitDiffReport;
use crate::git::models::GitDiffReportView;
use crate::git::models::GitLogReport;
use crate::git::models::GitLogReportView;
use crate::git::models::KeyChange;
use crate::git::models::KeyChangeKind;
use crate::git::models::KeyChangeView;
use crate::git::repo::blob_text;
use crate::git::repo::config_paths;
use crate::git::repo::get_file_content_at_commit;
use crate::git::repo::list_config_files_in_tree;
use crate::text::opt_str;
use crate::git::repo::CommitRecord;
use crate::git::repo::TreeSnapshot;
use crate::keys::ascending;
use crate::keys::has_key;
use crate::keys::lemma_ascending_unique;
use crate::keys::lemma_key_order_exists;
use crate::keys::union_keys;
use crate::text::key_lt;
use crate::policy::evaluator::evaluate_rules;
use crate::policy::evaluator::rules_compile;
use crate::policy::evaluator::violations_from;
use crate::policy::loader::lemma_valid_policy;
use crate::policy::loader::policy_fault;
use crate::policy::loader::validate_policy;
use crate::policy::loader::PolicyError;
use crate::text::opt_text;
use crate::policy::models::PolicyFile;
use crate::policy::models::Violation;
use crate::policy::models::ViolationView;
use crate::policy::parser::map_of_text;
use crate::policy::parser::opt_map;
use crate::policy::parser::text_map;
use crate::text::first_chars;
use crate::text::string_views;
use crate::text::take_chars;
use crate::text::trim;
use crate::text::trimmed;
use crate::utils::add_capped;
use crate::utils::capped;
use crate::utils::lemma_capped_sum;

verus! {

/// The RFC 3339 text of the moment that lies so many seconds after the
/// start of 1970, in UTC; none where the moment is out of the range of
/// dates that `chrono` can hold.
pub uninterp spec fn utc_rfc3339(seconds: int) -> Option<Seq<char>>;

/// Calls `chrono::DateTime::from_timestamp` with no nanoseconds and, where
/// that gives a date, `chrono::DateTime::to_rfc3339` on it. The contract
/// claims only that the outcome is a function of the seconds:
/// `utc_rfc3339` is its name.
#[verifier::external_body]
fn rfc3339_of(seconds: i64) -> (r: Option<String>)
    ensures
        opt_text(r) == utc_rfc3339(seconds as int),
{
    chrono::DateTime::from_timestamp(seconds, 0).map(|moment| moment.to_rfc3339())
}

/// The flat map of the file at `path` in a tree, if there is a tree, the
/// file is in it, is text, and parses.
pub open spec fn side_map(tree: Option<TreeSnapshot>, path: Seq<char>) -> Option<
    Map<Seq<char>, Seq<char>>,
> {
    match tree {
        Some(t) => text_map(blob_text(t, path), path),
        None => None,
    }
}

/// A map, or the empty map in its place.
pub open spec fn or_empty(m: Option<Map<Seq<char>, Seq<char>>>) -> Map<Seq<char>, Seq<char>> {
    match m {
        Some(x) => x,
        None => Map::empty(),
    }
}

/// The view of an optional reference to a flat map.
pub open spec fn opt_map_ref(m: Option<&FlatConfigMap>) -> Option<Map<Seq<char>, Seq<char>>> {
    match m {
        Some(x) => Some(x@),
        None => None,
    }
}

/// The view of optional file changes.
pub open spec fn opt_file(f: Option<FileChanges>) -> Option<FileChangesView> {
    match f {
        Some(x) => Some(x@),
        None => None,
    }
}

/// How many of the changes are of the given kind.
pub open spec fn count_kind(changes: Seq<KeyChangeView>, kind: KeyChangeKind) -> nat
    decreases changes.len(),
{
    if changes.len() == 0 {
        0
    } else {
        count_kind(changes.drop_last(), kind) + if changes.last().kind == kind {
            1nat
        } else {
            0nat
        }
    }
}

/// Every change is of one of the three kinds: the three counts add up to
/// the number of changes.
pub proof fn lemma_counts_add_up(changes: Seq<KeyChangeView>)
    ensures
        count_kind(changes, KeyChangeKind::Added) + count_kind(changes, KeyChangeKind::Removed)
            + count_kind(changes, KeyChangeKind::Changed) == changes.len(),
    decreases changes.len(),
{
    if changes.len() > 0 {
        lemma_counts_add_up(changes.drop_last());
    }
}

/// The changes of one file with their counts.
pub open spec fn file_changes_view(
    path: Seq<char>,
    changes: Seq<KeyChangeView>,
    violations: Seq<ViolationView>,
) -> FileChangesView {
    FileChangesView {
        path: path,
        keys_added: count_kind(changes, KeyChangeKind::Added),
        keys_removed: count_kind(changes, KeyChangeKind::Removed),
        keys_changed: count_kind(changes, KeyChangeKind::Changed),
        changes: changes,
        violations: violations,
    }
}

/// What is reported of a file whose flat map went from `old` to `new`:
/// nothing where the maps do not differ.
pub open spec fn file_entry(
    path: Seq<char>,
    old: Map<Seq<char>, Seq<char>>,
    new: Map<Seq<char>, Seq<char>>,
    violations: Seq<ViolationView>,
) -> Option<FileChangesView> {
    if diff_of(old, new).len() == 0 {
        None
    } else {
        Some(file_changes_view(path, diff_of(old, new), violations))
    }
}

/// The rules of the policy, if there is one, have well-formed patterns.
pub open spec fn policy_compiles(policy: Option<PolicyFile>) -> bool {
    policy matches Some(p) ==> rules_compile(p.rules@)
}

/// The violations that a policy finds in the flat map of a file: none
/// without a policy, and none without a map.
pub open spec fn policy_violations(
    policy: Option<PolicyFile>,
    map: Option<Map<Seq<char>, Seq<char>>>,
    path: Seq<char>,
) -> Seq<ViolationView> {
    match (policy, map) {
        (Some(p), Some(m)) => violations_from(p.rules@, path, m),
        _ => Seq::empty(),
    }
}

/// Evaluates the policy, if there is one, on the flat map of a file, if
/// there is one.
pub fn evaluate_policy_on_map(
    policy_file: &Option<PolicyFile>,
    config_map: Option<&FlatConfigMap>,
    file_path: &str,
) -> (violations: Vec<Violation>)
    requires
        policy_compiles(*policy_file),
    ensures
        violations.deep_view() == policy_violations(
            *policy_file,
            opt_map_ref(config_map),
            file_path@,
        ),
{
    match (policy_file, config_map) {
        (Some(policy), Some(map)) => evaluate_rules(&policy.rules, file_path, map),
        _ => {
            let none: Vec<Violation> = Vec::new();
            assert(none.deep_view() =~= Seq::<ViolationView>::empty());
            none
        },
    }
}

fn count_changes(changes: &Vec<KeyChange>, kind: KeyChangeKind) -> (n: usize)
    ensures
        n == count_kind(changes.deep_view(), kind),
{
    let ghost all = changes.deep_view();
    let mut n: usize = 0;
    let mut i: usize = 0;
    while i < changes.len()
        invariant
            i <= changes@.len(),
            all == changes.deep_view(),
            n <= i,
            n == count_kind(all.take(i as int), kind),
        decreases changes@.len() - i,
    {
        assert(all.take(i + 1).drop_last() =~= all.take(i as int));
        assert(all.take(i + 1).last() == changes@[i as int]@);
        if changes[i].kind == kind {
            n += 1;
        }
        i += 1;
    }
    assert(all.take(changes@.len() as int) =~= all);
    n
}

/// Puts the changes of a file together with their counts.
pub fn build_file_changes(path: &str, changes: Vec<KeyChange>, violations: Vec<Violation>) -> (r:
    FileChanges)
    ensures
        r@ == file_changes_view(path@, changes.deep_view(), violations.deep_view()),
{
    let keys_added = count_changes(&changes, KeyChangeKind::Added);
    let keys_removed = count_changes(&changes, KeyChangeKind::Removed);
    let keys_changed = count_changes(&changes, KeyChangeKind::Changed);
    FileChanges {
        path: path.to_string(),
        keys_added,
        keys_removed,
        keys_changed,
        changes,
        violations,
    }
}

/// The flat map of the file at `path` in a tree.
fn load_side(tree: &TreeSnapshot, path: &str) -> (r: Option<FlatConfigMap>)
    ensures
        opt_map(r) == side_map(Some(*tree), path@),
{
    let text = get_file_content_at_commit(tree, path);
    map_of_text(&text, path)
}

/// The flat map of the file at `path` in a tree that may not be there.
fn load_optional_side(tree: &Option<TreeSnapshot>, path: &str) -> (r: Option<FlatConfigMap>)
    ensures
        opt_map(r) == side_map(*tree, path@),
{
    match tree {
        Some(t) => load_side(t, path),
        None => None,
    }
}

/// Compares the two sides of a file and judges one map by the policy.
fn compare_sides(
    path: &str,
    old: &Option<FlatConfigMap>,
    new: &Option<FlatConfigMap>,
    policy: &Option<PolicyFile>,
    judged: Option<&FlatConfigMap>,
) -> (r: Option<FileChanges>)
    requires
        policy_compiles(*policy),
    ensures
        opt_file(r) == file_entry(
            path@,
            or_empty(opt_map(*old)),
            or_empty(opt_map(*new)),
            policy_violations(*policy, opt_map_ref(judged), path@),
        ),
{
    let empty = FlatConfigMap::new();
    let old_map = match old {
        Some(m) => m,
        None => &empty,
    };
    let new_map = match new {
        Some(m) => m,
        None => &empty,
    };
    let changes = diff_config_maps(old_map, new_map);
    proof {
        lemma_diff_of(old_map@, new_map@, changes.deep_view());
    }
    if changes.len() == 0 {
        return None;
    }
    let violations = evaluate_policy_on_map(policy, judged, path);
    Some(build_file_changes(path, changes, violations))
}

/// What is reported of a file of a commit's tree: how its flat map
/// differs from that of the same file in the parent, and what the policy
/// finds in it as it now is.
pub open spec fn changed_file(
    path: Seq<char>,
    parent: Option<TreeSnapshot>,
    tree: TreeSnapshot,
    policy: Option<PolicyFile>,
) -> Option<FileChangesView> {
    file_entry(
        path,
        or_empty(side_map(parent, path)),
        or_empty(side_map(Some(tree), path)),
        policy_violations(policy, side_map(Some(tree), path), path),
    )
}

/// What is reported of a file that the parent had and the commit has no
/// more: every key of it as removed.
pub open spec fn deleted_file(path: Seq<char>, parent: Option<TreeSnapshot>) -> Option<
    FileChangesView,
> {
    file_entry(path, or_empty(side_map(parent, path)), Map::empty(), Seq::empty())
}

/// What is reported of a path of a commit or of its parent: as a file of
/// the commit where the commit lists it, else as a deleted file.
pub open spec fn commit_file(
    path: Seq<char>,
    current: Seq<Seq<char>>,
    parent: Option<TreeSnapshot>,
    tree: TreeSnapshot,
    policy: Option<PolicyFile>,
) -> Option<FileChangesView> {
    if current.contains(path) {
        changed_file(path, parent, tree, policy)
    } else {
        deleted_file(path, parent)
    }
}

/// The reports of the first `n` paths, in their order, without the files
/// that did not change.
pub open spec fn files_along(
    paths: Seq<Seq<char>>,
    current: Seq<Seq<char>>,
    parent: Option<TreeSnapshot>,
    tree: TreeSnapshot,
    policy: Option<PolicyFile>,
    n: nat,
) -> Seq<FileChangesView>
    decreases n,
{
    if n == 0 {
        Seq::empty()
    } else {
        let before = files_along(paths, current, parent, tree, policy, (n - 1) as nat);
        match commit_file(paths[n - 1], current, parent, tree, policy) {
            Some(f) => before.push(f),
            None => before,
        }
    }
}

/// The configuration files of the parent's tree; none without a parent.
pub open spec fn parent_paths(parent: Option<TreeSnapshot>, filter: Option<Seq<char>>) -> Seq<
    Seq<char>,
> {
    match parent {
        Some(t) => config_paths(t, filter),
        None => Seq::empty(),
    }
}

/// The files that a commit changed, in the key order of their paths:
/// those of its own tree that differ from the parent's, and those of the
/// parent's tree that it has no more.
pub open spec fn commit_files(
    commit: CommitRecord,
    filter: Option<Seq<char>>,
    policy: Option<PolicyFile>,
) -> Seq<FileChangesView> {
    let current = config_paths(commit.tree, filter);
    let paths = either_paths(current, parent_paths(commit.parent, filter));
    files_along(paths, current, commit.parent, commit.tree, policy, paths.len())
}

/// The entry of a commit in the log, given its date as text if it can be
/// told: its id cut to seven characters and in full, its author or
/// `unknown`, its date or nothing, its message without the white space
/// around it, and its files.
pub open spec fn dated_entry(
    commit: CommitRecord,
    date: Option<Seq<char>>,
    files: Seq<FileChangesView>,
) -> CommitConfigChangesView {
    CommitConfigChangesView {
        commit_hash: first_chars(commit.id@, 7),
        commit_hash_full: commit.id@,
        author: match commit.author {
            Some(a) => a@,
            None => "unknown"@,
        },
        date: match date {
            Some(t) => t,
            None => Seq::empty(),
        },
        message: match commit.message {
            Some(m) => trimmed(m@),
            None => Seq::empty(),
        },
        files: files,
    }
}

/// The entry of a commit in the log, with its date in RFC 3339.
pub open spec fn commit_entry(commit: CommitRecord, files: Seq<FileChangesView>) -> CommitConfigChangesView {
    dated_entry(commit, utc_rfc3339(commit.time_seconds as int), files)
}

/// The log entries of the first `n` commits of a history, without the
/// commits that changed no configuration file.
pub open spec fn log_commits(
    history: Seq<CommitRecord>,
    filter: Option<Seq<char>>,
    policy: Option<PolicyFile>,
    n: nat,
) -> Seq<CommitConfigChangesView>
    decreases n,
{
    if n == 0 {
        Seq::empty()
    } else {
        let before = log_commits(history, filter, policy, (n - 1) as nat);
        let files = commit_files(history[n - 1], filter, policy);
        if files.len() == 0 {
            before
        } else {
            before.push(commit_entry(history[n - 1], files))
        }
    }
}

/// The smaller of a limit and a length.
pub open spec fn at_most(limit: nat, len: nat) -> nat {
    if limit <= len {
        limit
    } else {
        len
    }
}

/// The log of a history: the entries of its first `limit` commits.
pub open spec fn log_report(
    repository: Seq<char>,
    history: Seq<CommitRecord>,
    filter: Option<Seq<char>>,
    limit: nat,
    policy: Option<PolicyFile>,
) -> GitLogReportView {
    let commits = log_commits(history, filter, policy, at_most(limit, history.len()));
    GitLogReportView {
        repository: repository,
        path_filter: filter,
        commits_analyzed: commits.len(),
        commits: commits,
    }
}

/// Some file of the list has a violation.
pub open spec fn files_have_violation(files: Seq<FileChangesView>) -> bool {
    exists|i: int| 0 <= i < files.len() && (#[trigger] files[i]).violations.len() > 0
}

/// Some file of some commit of the list has a violation.
pub open spec fn commits_have_violation(commits: Seq<CommitConfigChangesView>) -> bool {
    exists|i: int| 0 <= i < commits.len() && files_have_violation((#[trigger] commits[i]).files)
}

fn clone_filter(path_filter: Option<&str>) -> (r: Option<String>)
    ensures
        opt_text(r) == opt_str(path_filter),
{
    match path_filter {
        Some(f) => Some(f.to_string()),
        None => None,
    }
}

/// The files that a commit changed, and whether the policy found a
/// violation in one of them.
fn files_of_commit(
    commit: &CommitRecord,
    path_filter: Option<&str>,
    policy: &Option<PolicyFile>,
) -> (r: (Vec<FileChanges>, bool))
    requires
        policy_compiles(*policy),
    ensures
        r.0.deep_view() == commit_files(*commit, opt_str(path_filter), *policy),
        r.1 == files_have_violation(r.0.deep_view()),
{
    let ghost filter = opt_str(path_filter);
    let config_files = list_config_files_in_tree(&commit.tree, path_filter);
    let parent_config_files = match &commit.parent {
        Some(t) => list_config_files_in_tree(t, path_filter),
        None => {
            let none: Vec<String> = Vec::new();
            assert(string_views(none@) =~= Seq::<Seq<char>>::empty());
            none
        },
    };
    let ghost current = string_views(config_files@);
    let ghost former = string_views(parent_config_files@);
    assert(current == config_paths(commit.tree, filter));
    assert(former == parent_paths(commit.parent, filter));
    let all_files = union_keys(&config_files, &parent_config_files);
    let ghost paths = string_views(all_files@);
    proof {
        assert(is_union(current, former, paths));
        lemma_ascending_unique(either_paths(current, former), paths);
    }
    let mut list: Vec<FileChanges> = Vec::new();
    let mut flag = false;
    assert(list.deep_view() =~= Seq::<FileChangesView>::empty());
    let mut i: usize = 0;
    while i < all_files.len()
        invariant
            i <= all_files@.len(),
            policy_compiles(*policy),
            paths == string_views(all_files@),
            current == string_views(config_files@),
            ascending(current),
            list.deep_view() == files_along(
                paths,
                current,
                commit.parent,
                commit.tree,
                *policy,
                i as nat,
            ),
            flag == files_have_violation(list.deep_view()),
        decreases all_files@.len() - i,
    {
        let path = all_files[i].as_str();
        assert(path@ == paths[i as int]);
        let old_map = load_optional_side(&commit.parent, path);
        let ghost before = list.deep_view();
        let entry = if has_key(&config_files, path) {
            let new_map = load_side(&commit.tree, path);
            let judged = match &new_map {
                Some(m) => Some(m),
                None => None,
            };
            compare_sides(path, &old_map, &new_map, policy, judged)
        } else {
            let gone: Option<FlatConfigMap> = None;
            let nothing: Option<PolicyFile> = None;
            compare_sides(path, &old_map, &gone, &nothing, None)
        };
        assert(opt_file(entry) == commit_file(
            path@,
            current,
            commit.parent,
            commit.tree,
            *policy,
        ));
        if let Some(fc) = entry {
            let found = fc.violations.len() > 0;
            let ghost fv = fc@;
            list.push(fc);
            proof {
                let after = list.deep_view();
                assert(after =~= before.push(fv));
                lemma_violation_after_push(before, fv);
            }
            flag = flag || found;
        }
        i += 1;
    }
    (list, flag)
}

/// A list of files has a violation after one more file was added where
/// it had one before, or the new file has one.
proof fn lemma_violation_after_push(files: Seq<FileChangesView>, f: FileChangesView)
    ensures
        files_have_violation(files.push(f)) == (files_have_violation(files) || f.violations.len()
            > 0),
{
    let after = files.push(f);
    if files_have_violation(files) {
        let i = choose|i: int| 0 <= i < files.len() && (#[trigger] files[i]).violations.len() > 0;
        assert(after[i].violations.len() > 0);
    }
    if f.violations.len() > 0 {
        assert(after[files.len() as int].violations.len() > 0);
    }
    if files_have_violation(after) {
        let i = choose|i: int| 0 <= i < after.len() && (#[trigger] after[i]).violations.len() > 0;
        if i < files.len() {
            assert(files[i].violations.len() > 0);
        }
    }
}

/// The same for the commits of a log.
proof fn lemma_commit_violation_after_push(
    commits: Seq<CommitConfigChangesView>,
    c: CommitConfigChangesView,
)
    ensures
        commits_have_violation(commits.push(c)) == (commits_have_violation(commits)
            || files_have_violation(c.files)),
{
    let after = commits.push(c);
    if commits_have_violation(commits) {
        let i = choose|i: int|
            0 <= i < commits.len() && files_have_violation((#[trigger] commits[i]).files);
        assert(files_have_violation(after[i].files));
    }
    if files_have_violation(c.files) {
        assert(files_have_violation(after[commits.len() as int].files));
    }
    if commits_have_violation(after) {
        let i = choose|i: int|
            0 <= i < after.len() && files_have_violation((#[trigger] after[i]).files);
        if i < commits.len() {
            assert(files_have_violation(commits[i].files));
        }
    }
}

/// The log entry of a commit with its files.
fn entry_of_commit(commit: &CommitRecord, files: Vec<FileChanges>) -> (r: CommitConfigChanges)
    ensures
        r@ == commit_entry(*commit, files.deep_view()),
{
    build_commit_entry(commit, rfc3339_of(commit.time_seconds), files)
}

/// The log entry of a commit with its files, given its date as text if
/// it can be told.
pub fn build_commit_entry(
    commit: &CommitRecord,
    date: Option<String>,
    files: Vec<FileChanges>,
) -> (r: CommitConfigChanges)
    ensures
        r@ == dated_entry(*commit, opt_text(date), files.deep_view()),
{
    let date = match date {
        Some(d) => d,
        None => String::new(),
    };
    let author = match &commit.author {
        Some(a) => a.clone(),
        None => "unknown".to_string(),
    };
    let message = match &commit.message {
        Some(m) => trim(m.as_str()).to_string(),
        None => String::new(),
    };
    CommitConfigChanges {
        commit_hash: take_chars(commit.id.as_str(), 7).to_string(),
        commit_hash_full: commit.id.clone(),
        author,
        date,
        message,
        files,
    }
}

/// Walks the first `limit` commits of a history.
fn walk_history(
    repository: &str,
    history: &Vec<CommitRecord>,
    path_filter: Option<&str>,
    limit: usize,
    policy: &Option<PolicyFile>,
) -> (r: (GitLogReport, bool))
    requires
        policy_compiles(*policy),
    ensures
        r.0@ == log_report(
            repository@,
            history@,
            opt_str(path_filter),
            limit as nat,
            *policy,
        ),
        r.1 == commits_have_violation(r.0@.commits),
{
    let ghost filter = opt_str(path_filter);
    let mut commits: Vec<CommitConfigChanges> = Vec::new();
    let mut has_violations = false;
    assert(commits.deep_view() =~= Seq::<CommitConfigChangesView>::empty());
    let mut i: usize = 0;
    while i < history.len() && i < limit
        invariant
            i <= history@.len(),
            i <= limit,
            policy_compiles(*policy),
            filter == opt_str(path_filter),
            commits.deep_view() == log_commits(history@, filter, *policy, i as nat),
            has_violations == commits_have_violation(commits.deep_view()),
        decreases history@.len() - i,
    {
        let commit = &history[i];
        let (files, found) = files_of_commit(commit, path_filter, policy);
        let ghost before = commits.deep_view();
        if files.len() > 0 {
            let entry = entry_of_commit(commit, files);
            let ghost ev = entry@;
            commits.push(entry);
            proof {
                assert(commits.deep_view() =~= before.push(ev));
                lemma_commit_violation_after_push(before, ev);
            }
            has_violations = has_violations || found;
        }
        i += 1;
    }
    let report = GitLogReport {
        repository: repository.to_string(),
        path_filter: clone_filter(path_filter),
        commits_analyzed: commits.len(),
        commits,
    };
    (report, has_violations)
}

/// The configuration changes of the first `limit` commits of a history,
/// newest first, without regard to any policy.
pub fn collect_log(
    repository: &str,
    history: &Vec<CommitRecord>,
    path_filter: Option<&str>,
    limit: usize,
) -> (report: GitLogReport)
    ensures
        report@ == log_report(
            repository@,
            history@,
            opt_str(path_filter),
            limit as nat,
            None,
        ),
{
    let nothing: Option<PolicyFile> = None;
    walk_history(repository, history, path_filter, limit, &nothing).0
}

/// What stands in the way of using a policy, if there is a policy and
/// something does.
pub open spec fn optional_policy_fault(policy: Option<PolicyFile>) -> Option<
    crate::policy::loader::PolicyErrorView,
> {
    match policy {
        Some(p) => policy_fault(p),
        None => None,
    }
}

fn check_optional_policy(policy: &Option<PolicyFile>) -> (r: Result<(), PolicyError>)
    ensures
        match r {
            Ok(_) => optional_policy_fault(*policy) is None && policy_compiles(*policy),
            Err(e) => optional_policy_fault(*policy) == Some(e@),
        },
{
    match policy {
        Some(p) => match validate_policy(p) {
            Ok(_) => {
                proof {
                    lemma_valid_policy(*p);
                }
                Ok(())
            },
            Err(e) => Err(e),
        },
        None => Ok(()),
    }
}

/// The configuration changes of the first `limit` commits of a history,
/// newest first, each changed file judged by the policy if there is one.
/// The flag tells whether the policy found a violation. A policy that
/// cannot be used is refused before anything is read.
pub fn git_log(
    repository: &str,
    history: &Vec<CommitRecord>,
    path_filter: Option<&str>,
    limit: usize,
    policy: &Option<PolicyFile>,
) -> (r: Result<(GitLogReport, bool), PolicyError>)
    ensures
        match r {
            Ok((report, has_violations)) => {
                &&& optional_policy_fault(*policy) is None
                &&& report@ == log_report(
                    repository@,
                    history@,
                    opt_str(path_filter),
                    limit as nat,
                    *policy,
                )
                &&& has_violations == commits_have_violation(report@.commits)
            },
            Err(e) => optional_policy_fault(*policy) == Some(e@),
        },
{
    match check_optional_policy(policy) {
        Ok(_) => Ok(walk_history(repository, history, path_filter, limit, policy)),
        Err(e) => Err(e),
    }
}

/// `paths` holds what is in `a` or in `b`, each once, in key order.
pub open spec fn is_union(a: Seq<Seq<char>>, b: Seq<Seq<char>>, paths: Seq<Seq<char>>) -> bool {
    ascending(paths) && forall|p: Seq<char>| paths.contains(p) <==> (a.contains(p) || b.contains(p))
}

/// The paths of two lists, each once, in key order.
pub open spec fn either_paths(a: Seq<Seq<char>>, b: Seq<Seq<char>>) -> Seq<Seq<char>> {
    choose|paths: Seq<Seq<char>>| is_union(a, b, paths)
}

/// Any two lists of paths have a union in key order, and `either_paths`
/// is that union.
pub proof fn lemma_either_paths(a: Seq<Seq<char>>, b: Seq<Seq<char>>)
    ensures
        is_union(a, b, either_paths(a, b)),
{
    let both = a + b;
    let paths = lemma_key_order_exists(both);
    assert forall|p: Seq<char>| paths.contains(p) <==> (a.contains(p) || b.contains(p)) by {
        if both.contains(p) {
            let w = choose|w: int| 0 <= w < both.len() && both[w] == p;
            if w < a.len() {
                assert(a[w] == p);
            } else {
                assert(b[w - a.len()] == p);
            }
        }
        if a.contains(p) {
            let w = choose|w: int| 0 <= w < a.len() && a[w] == p;
            assert(both[w] == p);
        }
        if b.contains(p) {
            let w = choose|w: int| 0 <= w < b.len() && b[w] == p;
            assert(both[a.len() + w] == p);
        }
    }
    assert(is_union(a, b, paths));
}

/// The paths of a list of files.
pub open spec fn file_paths(files: Seq<FileChangesView>) -> Seq<Seq<char>> {
    files.map_values(|f: FileChangesView| f.path)
}

proof fn lemma_files_along_follow_paths(
    paths: Seq<Seq<char>>,
    current: Seq<Seq<char>>,
    parent: Option<TreeSnapshot>,
    tree: TreeSnapshot,
    policy: Option<PolicyFile>,
    n: nat,
)
    requires
        ascending(paths),
        n <= paths.len(),
    ensures
        ascending(file_paths(files_along(paths, current, parent, tree, policy, n))),
        forall|i: int, m: int|
            0 <= i < files_along(paths, current, parent, tree, policy, n).len() && n <= m
                < paths.len() ==> key_lt(
                #[trigger] file_paths(files_along(paths, current, parent, tree, policy, n))[i],
                #[trigger] paths[m],
            ),
    decreases n,
{
    if n > 0 {
        let before = files_along(paths, current, parent, tree, policy, (n - 1) as nat);
        let after = files_along(paths, current, parent, tree, policy, n);
        lemma_files_along_follow_paths(paths, current, parent, tree, policy, (n - 1) as nat);
        lemma_paths_after_push(
            paths,
            before,
            after,
            commit_file(paths[n - 1], current, parent, tree, policy),
            n,
        );
    }
}

proof fn lemma_ref_files_follow_paths(
    paths: Seq<Seq<char>>,
    from: TreeSnapshot,
    to: TreeSnapshot,
    policy: Option<PolicyFile>,
    n: nat,
)
    requires
        ascending(paths),
        n <= paths.len(),
    ensures
        ascending(file_paths(ref_files(paths, from, to, policy, n))),
        forall|i: int, m: int|
            0 <= i < ref_files(paths, from, to, policy, n).len() && n <= m < paths.len()
                ==> key_lt(
                #[trigger] file_paths(ref_files(paths, from, to, policy, n))[i],
                #[trigger] paths[m],
            ),
    decreases n,
{
    if n > 0 {
        let before = ref_files(paths, from, to, policy, (n - 1) as nat);
        let after = ref_files(paths, from, to, policy, n);
        lemma_ref_files_follow_paths(paths, from, to, policy, (n - 1) as nat);
        lemma_paths_after_push(paths, before, after, ref_file(paths[n - 1], from, to, policy), n);
    }
}

/// A list of files that follows the first `n - 1` paths still follows
/// the paths when the file at the path `n - 1`, if there is one, is added.
proof fn lemma_paths_after_push(
    paths: Seq<Seq<char>>,
    before: Seq<FileChangesView>,
    after: Seq<FileChangesView>,
    entry: Option<FileChangesView>,
    n: nat,
)
    requires
        ascending(paths),
        0 < n <= paths.len(),
        ascending(file_paths(before)),
        forall|i: int, m: int|
            0 <= i < before.len() && n - 1 <= m < paths.len() ==> key_lt(
                #[trigger] file_paths(before)[i],
                #[trigger] paths[m],
            ),
        entry matches Some(f) ==> f.path == paths[n - 1],
        after == (match entry {
            Some(f) => before.push(f),
            None => before,
        }),
    ensures
        ascending(file_paths(after)),
        forall|i: int, m: int|
            0 <= i < after.len() && n <= m < paths.len() ==> key_lt(
                #[trigger] file_paths(after)[i],
                #[trigger] paths[m],
            ),
{
    let old_paths = file_paths(before);
    let new_paths = file_paths(after);
    assert forall|i: int, m: int| 0 <= i < after.len() && n <= m < paths.len() implies key_lt(
        #[trigger] new_paths[i],
        #[trigger] paths[m],
    ) by {
        if i < before.len() {
            assert(key_lt(old_paths[i], paths[m]));
        } else {
            assert(key_lt(paths[n - 1], paths[m]));
        }
    }
    assert forall|i: int, j: int| 0 <= i < j < new_paths.len() implies key_lt(
        #[trigger] new_paths[i],
        #[trigger] new_paths[j],
    ) by {
        if j < before.len() {
            assert(key_lt(old_paths[i], old_paths[j]));
        } else {
            assert(key_lt(old_paths[i], paths[n - 1]));
        }
    }
}

/// The files of a commit come in the key order of their paths, and no
/// path comes twice.
pub proof fn lemma_commit_files_in_path_order(
    commit: CommitRecord,
    filter: Option<Seq<char>>,
    policy: Option<PolicyFile>,
)
    ensures
        ascending(file_paths(commit_files(commit, filter, policy))),
{
    let current = config_paths(commit.tree, filter);
    let former = parent_paths(commit.parent, filter);
    lemma_either_paths(current, former);
    let paths = either_paths(current, former);
    lemma_files_along_follow_paths(paths, current, commit.parent, commit.tree, policy, paths.len());
}

/// The files of a report on two refs come in the key order of their
/// paths, and no path comes twice.
pub proof fn lemma_diff_files_in_path_order(
    repository: Seq<char>,
    ref_from: Seq<char>,
    ref_to: Seq<char>,
    from: TreeSnapshot,
    to: TreeSnapshot,
    filter: Option<Seq<char>>,
    policy: Option<PolicyFile>,
)
    ensures
        ascending(
            file_paths(diff_report(repository, ref_from, ref_to, from, to, filter, policy).files),
        ),
{
    let a = config_paths(from, filter);
    let b = config_paths(to, filter);
    lemma_either_paths(a, b);
    let paths = either_paths(a, b);
    lemma_ref_files_follow_paths(paths, from, to, policy, paths.len());
}

/// What is reported of a file between two refs: how its flat map in the
/// first tree differs from that in the second, and what the policy finds
/// in the second, where a file that is not there counts as empty.
pub open spec fn ref_file(
    path: Seq<char>,
    from: TreeSnapshot,
    to: TreeSnapshot,
    policy: Option<PolicyFile>,
) -> Option<FileChangesView> {
    file_entry(
        path,
        or_empty(side_map(Some(from), path)),
        or_empty(side_map(Some(to), path)),
        policy_violations(policy, Some(or_empty(side_map(Some(to), path))), path),
    )
}

/// The reports of the first `n` paths between two refs, without the
/// files that do not differ.
pub open spec fn ref_files(
    paths: Seq<Seq<char>>,
    from: TreeSnapshot,
    to: TreeSnapshot,
    policy: Option<PolicyFile>,
    n: nat,
) -> Seq<FileChangesView>
    decreases n,
{
    if n == 0 {
        Seq::empty()
    } else {
        let before = ref_files(paths, from, to, policy, (n - 1) as nat);
        match ref_file(paths[n - 1], from, to, policy) {
            Some(f) => before.push(f),
            None => before,
        }
    }
}

/// The keys of a kind over all files of a list.
pub open spec fn total_of_kind(files: Seq<FileChangesView>, kind: KeyChangeKind) -> nat
    decreases files.len(),
{
    if files.len() == 0 {
        0
    } else {
        total_of_kind(files.drop_last(), kind) + (match kind {
            KeyChangeKind::Added => files.last().keys_added,
            KeyChangeKind::Removed => files.last().keys_removed,
            KeyChangeKind::Changed => files.last().keys_changed,
        })
    }
}

/// The report on two refs: the files that differ, in key order, and the
/// totals over them. A total that does not fit `usize` is given as the
/// greatest `usize`.
pub open spec fn diff_report(
    repository: Seq<char>,
    ref_from: Seq<char>,
    ref_to: Seq<char>,
    from: TreeSnapshot,
    to: TreeSnapshot,
    filter: Option<Seq<char>>,
    policy: Option<PolicyFile>,
) -> GitDiffReportView {
    let paths = either_paths(config_paths(from, filter), config_paths(to, filter));
    let files = ref_files(paths, from, to, policy, paths.len());
    GitDiffReportView {
        repository: repository,
        ref_from: ref_from,
        ref_to: ref_to,
        path_filter: filter,
        total_files_changed: files.len(),
        total_keys_added: capped(total_of_kind(files, KeyChangeKind::Added)),
        total_keys_removed: capped(total_of_kind(files, KeyChangeKind::Removed)),
        total_keys_changed: capped(total_of_kind(files, KeyChangeKind::Changed)),
        files: files,
    }
}

fn compare_refs(
    repository: &str,
    ref1: &str,
    ref2: &str,
    from: &TreeSnapshot,
    to: &TreeSnapshot,
    path_filter: Option<&str>,
    policy: &Option<PolicyFile>,
) -> (r: (GitDiffReport, bool))
    requires
        policy_compiles(*policy),
    ensures
        r.0@ == diff_report(
            repository@,
            ref1@,
            ref2@,
            *from,
            *to,
            opt_str(path_filter),
            *policy,
        ),
        r.1 == files_have_violation(r.0@.files),
{
    let ghost filter = opt_str(path_filter);
    let files1 = list_config_files_in_tree(from, path_filter);
    let files2 = list_config_files_in_tree(to, path_filter);
    let all_files = union_keys(&files1, &files2);
    let ghost paths = string_views(all_files@);
    proof {
        let a = config_paths(*from, filter);
        let b = config_paths(*to, filter);
        assert(is_union(a, b, paths));
        lemma_ascending_unique(either_paths(a, b), paths);
    }
    let mut list: Vec<FileChanges> = Vec::new();
    let mut has_violations = false;
    let mut total_added: usize = 0;
    let mut total_removed: usize = 0;
    let mut total_changed: usize = 0;
    assert(list.deep_view() =~= Seq::<FileChangesView>::empty());
    let mut i: usize = 0;
    while i < all_files.len()
        invariant
            i <= all_files@.len(),
            policy_compiles(*policy),
            paths == string_views(all_files@),
            list.deep_view() == ref_files(paths, *from, *to, *policy, i as nat),
            has_violations == files_have_violation(list.deep_view()),
            total_added == capped(total_of_kind(list.deep_view(), KeyChangeKind::Added)),
            total_removed == capped(total_of_kind(list.deep_view(), KeyChangeKind::Removed)),
            total_changed == capped(total_of_kind(list.deep_view(), KeyChangeKind::Changed)),
        decreases all_files@.len() - i,
    {
        let path = all_files[i].as_str();
        assert(path@ == paths[i as int]);
        let map1 = load_side(from, path);
        let map2 = load_side(to, path);
        let empty = FlatConfigMap::new();
        let judged = match &map2 {
            Some(m) => m,
            None => &empty,
        };
        let ghost before = list.deep_view();
        if let Some(fc) = compare_sides(path, &map1, &map2, policy, Some(judged)) {
            let found = fc.violations.len() > 0;
            let ghost fv = fc@;
            total_added = add_capped(total_added, fc.keys_added);
            total_removed = add_capped(total_removed, fc.keys_removed);
            total_changed = add_capped(total_changed, fc.keys_changed);
            list.push(fc);
            proof {
                lemma_capped_sum(total_of_kind(before, KeyChangeKind::Added), fv.keys_added);
                lemma_capped_sum(total_of_kind(before, KeyChangeKind::Removed), fv.keys_removed);
                lemma_capped_sum(total_of_kind(before, KeyChangeKind::Changed), fv.keys_changed);
                let after = list.deep_view();
                assert(after =~= before.push(fv));
                assert(after.drop_last() =~= before);
                lemma_violation_after_push(before, fv);
            }
            has_violations = has_violations || found;
        }
        i += 1;
    }
    let report = GitDiffReport {
        repository: repository.to_string(),
        ref_from: ref1.to_string(),
        ref_to: ref2.to_string(),
        path_filter: clone_filter(path_filter),
        total_files_changed: list.len(),
        total_keys_added: total_added,
        total_keys_removed: total_removed,
        total_keys_changed: total_changed,
        files: list,
    };
    (report, has_violations)
}

/// Compares the configuration files of two refs key by key, and judges
/// the files of the second by the policy if there is one. The flag tells
/// whether the policy found a violation. A policy that cannot be used is
/// refused before anything is read.
pub fn git_diff(
    repository: &str,
    ref1: &str,
    ref2: &str,
    from: &TreeSnapshot,
    to: &TreeSnapshot,
    path_filter: Option<&str>,
    policy: &Option<PolicyFile>,
) -> (r: Result<(GitDiffReport, bool), PolicyError>)
    ensures
        match r {
            Ok((report, has_violations)) => {
                &&& optional_policy_fault(*policy) is None
                &&& report@ == diff_report(
                    repository@,
                    ref1@,
                    ref2@,
                    *from,
                    *to,
                    opt_str(path_filter),
                    *policy,
                )
                &&& has_violations == files_have_violation(report@.files)
            },
            Err(e) => optional_policy_fault(*policy) == Some(e@),
        },
{
    match check_optional_policy(policy) {
        Ok(_) => Ok(compare_refs(repository, ref1, ref2, from, to, path_filter, policy)),
        Err(e) => Err(e),
    }
}

} // verus!
