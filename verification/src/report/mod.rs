//! Reports: the table of a snapshot, and the audit of a directory.

pub mod models;
pub mod output;

use vstd::prelude::*;
use crate::git::collect_log;
use crate::git::log_report;
use crate::git::repo::CommitRecord;
use crate::models::EntryView;
use crate::models::SecretReport;
use crate::models::SecretReportView;
use crate::models::Snapshot;
use crate::models::SnapshotView;
use crate::policy::evaluator::evaluate_policy;
use crate::policy::evaluator::policy_report;
use crate::policy::loader::lemma_valid_policy;
use crate::policy::loader::policy_valid;
use crate::policy::loader::validate_policy;
use crate::policy::models::PolicyFile;
use crate::policy::models::PolicyReport;
use crate::policy::models::PolicyReportView;
use crate::policy::models::SourceFile;
use crate::policy::parser::hint_of;
use crate::report::models::opt_policy;
use crate::report::models::opt_secrets;
use crate::report::models::AuditReport;
use crate::report::models::AuditReportView;
use crate::report::models::InventoryEntry;
use crate::report::models::InventoryEntryView;
use crate::report::models::OverviewSection;
use crate::report::models::OverviewSectionView;
use crate::report::models::RiskLevel;
use crate::secrets::detector::secret_report;
use crate::secrets::get_report;
use crate::text::decimal;
use crate::text::extension_of;
use crate::text::key_lt;
use crate::text::str_eq;
use crate::text::str_lt;
use crate::text::usize_to_text;
use crate::utils::hash_file;
use crate::utils::is_config;
use crate::utils::is_config_path;
use crate::utils::sha256_hex;

verus! {

/// The rows of the first `n` entries of a snapshot.
pub open spec fn report_rows(entries: Seq<EntryView>, n: nat) -> Seq<char>
    decreases n,
{
    if n == 0 {
        Seq::empty()
    } else {
        report_rows(entries, (n - 1) as nat) + "| "@ + entries[n - 1].path + " | `"@ + entries[n
            - 1].hash + "` |\n"@
    }
}

/// A snapshot as a Markdown table.
pub open spec fn report_text(snapshot: SnapshotView) -> Seq<char> {
    "# ConfigTrace Report\n\nGenerated: "@ + snapshot.created_at + "\n\n"@
        + "| File | SHA256 |\n|---|---|\n"@ + report_rows(
        snapshot.entries,
        snapshot.entries.len(),
    )
}

/// Writes a snapshot as a Markdown table.
pub fn report(snapshot: &Snapshot) -> (md: String)
    ensures
        md@ == report_text(snapshot@),
{
    let ghost entries = snapshot.entries.deep_view();
    let mut md = "# ConfigTrace Report\n\nGenerated: ".to_string();
    md.append(snapshot.created_at.as_str());
    md.append("\n\n");
    md.append("| File | SHA256 |\n|---|---|\n");
    let ghost head = md@;
    let mut i: usize = 0;
    assert(head + report_rows(entries, 0) =~= head);
    while i < snapshot.entries.len()
        invariant
            i <= snapshot.entries@.len(),
            entries == snapshot.entries.deep_view(),
            md@ == head + report_rows(entries, i as nat),
        decreases snapshot.entries@.len() - i,
    {
        let entry = &snapshot.entries[i];
        let ghost before = report_rows(entries, i as nat);
        assert(entries[i as int] == entry@);
        md.append("| ");
        md.append(entry.path.as_str());
        md.append(" | `");
        md.append(entry.hash.as_str());
        md.append("` |\n");
        assert(md@ =~= head + (before + "| "@ + entry.path@ + " | `"@ + entry.hash@ + "` |\n"@));
        i += 1;
    }
    md
}

/// The entry of a file in the inventory. The hash of a file that could
/// not be read is the word `error`.
pub open spec fn inventory_entry(file: SourceFile) -> InventoryEntryView {
    InventoryEntryView {
        path: file.path@,
        hash: match file.data {
            Some(d) => sha256_hex(d@),
            None => "error"@,
        },
        format: hint_of(file.path@),
    }
}

/// The entries of the configuration files among the first `n` files, in
/// the order of the files.
pub open spec fn found_entries(files: Seq<SourceFile>, n: nat) -> Seq<InventoryEntryView>
    decreases n,
{
    if n == 0 {
        Seq::empty()
    } else {
        let before = found_entries(files, (n - 1) as nat);
        if is_config_path(files[n - 1].path@) {
            before.push(inventory_entry(files[n - 1]))
        } else {
            before
        }
    }
}

/// A list in the order of its paths with one more entry put in: behind
/// every entry whose path does not come behind its own.
pub open spec fn insert_by_path(s: Seq<InventoryEntryView>, e: InventoryEntryView) -> Seq<
    InventoryEntryView,
>
    decreases s.len(),
{
    if s.len() > 0 && key_lt(e.path, s.last().path) {
        insert_by_path(s.drop_last(), e).push(s.last())
    } else {
        s.push(e)
    }
}

/// The entries of a list in the order of their paths; entries with the
/// same path keep their order.
pub open spec fn sorted_by_path(s: Seq<InventoryEntryView>) -> Seq<InventoryEntryView>
    decreases s.len(),
{
    if s.len() == 0 {
        Seq::empty()
    } else {
        insert_by_path(sorted_by_path(s.drop_last()), s.last())
    }
}

/// Where an entry is put in: at the place before which no path comes
/// behind its own and from which on every path does.
pub proof fn lemma_insert_by_path(s: Seq<InventoryEntryView>, e: InventoryEntryView, pos: int)
    requires
        0 <= pos <= s.len(),
        forall|j: int| pos <= j < s.len() ==> key_lt(e.path, (#[trigger] s[j]).path),
        pos > 0 ==> !key_lt(e.path, s[pos - 1].path),
    ensures
        insert_by_path(s, e) == s.insert(pos, e),
    decreases s.len(),
{
    if pos == s.len() {
        assert(s.push(e) =~= s.insert(pos, e));
    } else {
        let front = s.drop_last();
        assert(key_lt(e.path, s[s.len() - 1].path));
        assert forall|j: int| pos <= j < front.len() implies key_lt(
            e.path,
            (#[trigger] front[j]).path,
        ) by {
            assert(front[j] == s[j]);
        }
        lemma_insert_by_path(front, e, pos);
        assert(front.insert(pos, e).push(s.last()) =~= s.insert(pos, e));
    }
}

/// No entry of the list has a path that comes before the path of an
/// entry before it.
pub open spec fn in_path_order(s: Seq<InventoryEntryView>) -> bool {
    forall|i: int, j: int|
        0 <= i < j < s.len() ==> !key_lt((#[trigger] s[j]).path, (#[trigger] s[i]).path)
}

/// The place at which `insert_by_path` puts an entry.
pub open spec fn insert_place(s: Seq<InventoryEntryView>, e: InventoryEntryView) -> int
    decreases s.len(),
{
    if s.len() > 0 && key_lt(e.path, s.last().path) {
        insert_place(s.drop_last(), e)
    } else {
        s.len() as int
    }
}

/// From the place of an entry on, every path comes behind its own; the
/// path before that place does not.
pub proof fn lemma_insert_place(s: Seq<InventoryEntryView>, e: InventoryEntryView)
    ensures
        0 <= insert_place(s, e) <= s.len(),
        forall|j: int|
            insert_place(s, e) <= j < s.len() ==> key_lt(e.path, (#[trigger] s[j]).path),
        insert_place(s, e) > 0 ==> !key_lt(e.path, s[insert_place(s, e) - 1].path),
        insert_by_path(s, e) == s.insert(insert_place(s, e), e),
    decreases s.len(),
{
    if s.len() > 0 && key_lt(e.path, s.last().path) {
        let front = s.drop_last();
        lemma_insert_place(front, e);
        let p = insert_place(front, e);
        assert forall|j: int| p <= j < s.len() implies key_lt(e.path, (#[trigger] s[j]).path) by {
            if j < front.len() {
                assert(front[j] == s[j]);
            }
        }
        if p > 0 {
            assert(front[p - 1] == s[p - 1]);
        }
    }
    lemma_insert_by_path(s, e, insert_place(s, e));
}

/// Putting an entry into a list in the order of its paths leaves the
/// list in that order, one entry longer.
pub proof fn lemma_insert_keeps_order(s: Seq<InventoryEntryView>, e: InventoryEntryView)
    requires
        in_path_order(s),
    ensures
        in_path_order(insert_by_path(s, e)),
        insert_by_path(s, e).len() == s.len() + 1,
{
    lemma_insert_place(s, e);
    let p = insert_place(s, e);
    let r = s.insert(p, e);
    assert forall|i: int, j: int| 0 <= i < j < r.len() implies !key_lt(
        (#[trigger] r[j]).path,
        (#[trigger] r[i]).path,
    ) by {
        if i == p {
            assert(r[j] == s[j - 1]);
            assert(key_lt(e.path, s[j - 1].path));
            crate::text::lemma_key_lt_asymmetric(e.path, s[j - 1].path);
        } else if j == p {
            assert(r[i] == s[i]);
            if key_lt(e.path, s[i].path) {
                if i < p - 1 {
                    assert(!key_lt(s[p - 1].path, s[i].path));
                    crate::text::lemma_key_lt_total(s[i].path, s[p - 1].path);
                    if key_lt(s[i].path, s[p - 1].path) {
                        crate::text::lemma_key_lt_transitive(e.path, s[i].path, s[p - 1].path);
                    }
                }
            }
        } else {
            let si = if i < p { i } else { i - 1 };
            let sj = if j < p { j } else { j - 1 };
            assert(r[i] == s[si]);
            assert(r[j] == s[sj]);
            assert(!key_lt(s[sj].path, s[si].path));
        }
    }
}

/// A sorted list is in the order of its paths, and as long as the list
/// it was made from.
pub proof fn lemma_sorted_by_path(s: Seq<InventoryEntryView>)
    ensures
        in_path_order(sorted_by_path(s)),
        sorted_by_path(s).len() == s.len(),
    decreases s.len(),
{
    if s.len() > 0 {
        lemma_sorted_by_path(s.drop_last());
        lemma_insert_keeps_order(sorted_by_path(s.drop_last()), s.last());
    }
}

/// How many entries have one of two formats.
pub open spec fn count_formats(s: Seq<InventoryEntryView>, a: Seq<char>, b: Seq<char>) -> nat
    decreases s.len(),
{
    if s.len() == 0 {
        0
    } else {
        count_formats(s.drop_last(), a, b) + if s.last().format == a || s.last().format == b {
            1nat
        } else {
            0nat
        }
    }
}

/// What an audit comes to: it fails on a critical secret or a critical
/// violation, warns on any other secret or violation, and passes
/// otherwise.
pub open spec fn risk_of(secrets: Option<SecretReportView>, policy: Option<PolicyReportView>) -> RiskLevel {
    let critical = (secrets matches Some(s) && s.critical_count > 0) || (policy matches Some(p)
        && p.critical_count > 0);
    let any = (secrets matches Some(s) && s.total_findings > 0) || (policy matches Some(p)
        && p.total_violations > 0);
    if critical {
        RiskLevel::Fail
    } else if any {
        RiskLevel::Warn
    } else {
        RiskLevel::Pass
    }
}

/// The outcome of an audit in words.
pub open spec fn summary_of(secrets: Option<SecretReportView>, policy: Option<PolicyReportView>) -> Seq<char> {
    let found = secrets matches Some(s) && s.total_findings > 0;
    let violated = policy matches Some(p) && p.total_violations > 0;
    if found && violated {
        decimal(secrets->0.total_findings) + " secrets found"@ + ", "@ + decimal(
            policy->0.total_violations,
        ) + " policy violations"@
    } else if found {
        decimal(secrets->0.total_findings) + " secrets found"@
    } else if violated {
        decimal(policy->0.total_violations) + " policy violations"@
    } else {
        "No issues found"@
    }
}

/// The report of a policy on the files, if there is a policy and it can
/// be used.
pub open spec fn policy_part(
    files: Seq<SourceFile>,
    policy: Option<PolicyFile>,
    now: Seq<char>,
) -> Option<PolicyReportView> {
    match policy {
        Some(p) => if policy_valid(p) {
            Some(policy_report(files, p, now))
        } else {
            None
        },
        None => None,
    }
}

/// The log of the five newest commits, if there is a history and one of
/// them changed a configuration file.
pub open spec fn git_part(repository: Seq<char>, history: Option<Vec<CommitRecord>>) -> Option<
    crate::git::models::GitLogReportView,
> {
    match history {
        Some(h) => {
            let log = log_report(repository, h@, None, 5, None);
            if log.commits.len() > 0 {
                Some(log)
            } else {
                None
            }
        },
        None => None,
    }
}

/// The audit of a list of files at the moment `now`.
pub open spec fn audit_report(
    path: Seq<char>,
    files: Seq<SourceFile>,
    now: Seq<char>,
    policy: Option<PolicyFile>,
    repository: Seq<char>,
    history: Option<Vec<CommitRecord>>,
) -> AuditReportView {
    let inventory = sorted_by_path(found_entries(files, files.len()));
    let secrets = Some(secret_report(files, now));
    let judged = policy_part(files, policy, now);
    AuditReportView {
        overview: OverviewSectionView {
            generated_at: now,
            path: path,
            total_files: inventory.len(),
            yaml_count: count_formats(inventory, "yaml"@, "yml"@),
            json_count: count_formats(inventory, "json"@, "json"@),
            toml_count: count_formats(inventory, "toml"@, "toml"@),
        },
        inventory: inventory,
        secrets: secrets,
        policy: judged,
        git_changes: git_part(repository, history),
        risk_level: risk_of(secrets, judged),
        risk_summary: summary_of(secrets, judged),
    }
}

fn insert_entry(list: &mut Vec<InventoryEntry>, entry: InventoryEntry)
    ensures
        final(list).deep_view() == insert_by_path(old(list).deep_view(), entry@),
{
    let ghost before = list.deep_view();
    let ghost ev = entry@;
    let mut pos: usize = list.len();
    while pos > 0 && str_lt(entry.path.as_str(), list[pos - 1].path.as_str())
        invariant
            pos <= list@.len(),
            before == list.deep_view(),
            ev == entry@,
            forall|j: int| pos <= j < before.len() ==> key_lt(ev.path, (#[trigger] before[j]).path),
        decreases pos,
    {
        pos -= 1;
    }
    proof {
        if pos > 0 {
            assert(before[pos - 1] == list@[pos - 1]@);
        }
        lemma_insert_by_path(before, ev, pos as int);
    }
    list.insert(pos, entry);
    assert(list.deep_view() =~= before.insert(pos as int, ev));
}

fn count_in(list: &Vec<InventoryEntry>, a: &str, b: &str) -> (n: usize)
    ensures
        n == count_formats(list.deep_view(), a@, b@),
{
    let ghost all = list.deep_view();
    let mut n: usize = 0;
    let mut i: usize = 0;
    while i < list.len()
        invariant
            i <= list@.len(),
            all == list.deep_view(),
            n <= i,
            n == count_formats(all.take(i as int), a@, b@),
        decreases list@.len() - i,
    {
        assert(all.take(i + 1).drop_last() =~= all.take(i as int));
        assert(all.take(i + 1).last() == list@[i as int]@);
        let format = list[i].format.as_str();
        if str_eq(format, a) || str_eq(format, b) {
            n += 1;
        }
        i += 1;
    }
    assert(all.take(list@.len() as int) =~= all);
    n
}

fn entry_of(file: &SourceFile) -> (entry: InventoryEntry)
    ensures
        entry@ == inventory_entry(*file),
{
    let format = match extension_of(file.path.as_str()) {
        Some(e) => e.to_string(),
        None => String::new(),
    };
    let hash = match &file.data {
        Some(d) => hash_file(d.as_slice()),
        None => "error".to_string(),
    };
    InventoryEntry { path: file.path.clone(), hash, format }
}

fn summary(secrets: &Option<SecretReport>, policy: &Option<PolicyReport>) -> (s: String)
    ensures
        s@ == summary_of(opt_secrets(*secrets), opt_policy(*policy)),
{
    let found: usize = match secrets {
        Some(r) => r.total_findings,
        None => 0,
    };
    let violated: usize = match policy {
        Some(r) => r.total_violations,
        None => 0,
    };
    if found > 0 && violated > 0 {
        let mut s = usize_to_text(found);
        s.append(" secrets found");
        s.append(", ");
        s.append(usize_to_text(violated).as_str());
        s.append(" policy violations");
        s
    } else if found > 0 {
        let mut s = usize_to_text(found);
        s.append(" secrets found");
        s
    } else if violated > 0 {
        let mut s = usize_to_text(violated);
        s.append(" policy violations");
        s
    } else {
        "No issues found".to_string()
    }
}

fn risk(secrets: &Option<SecretReport>, policy: &Option<PolicyReport>) -> (level: RiskLevel)
    ensures
        level == risk_of(opt_secrets(*secrets), opt_policy(*policy)),
{
    let critical_secrets = match secrets {
        Some(r) => r.critical_count > 0,
        None => false,
    };
    let critical_policy = match policy {
        Some(r) => r.critical_count > 0,
        None => false,
    };
    let any_secrets = match secrets {
        Some(r) => r.total_findings > 0,
        None => false,
    };
    let any_violations = match policy {
        Some(r) => r.total_violations > 0,
        None => false,
    };
    if critical_secrets || critical_policy {
        RiskLevel::Fail
    } else if any_secrets || any_violations {
        RiskLevel::Warn
    } else {
        RiskLevel::Pass
    }
}

/// Puts the audit of a list of files together: the inventory of the
/// configuration files in the order of their paths, the search for
/// secrets, the report of the policy if there is one that can be used,
/// and the log of the five newest commits if there is a history.
pub fn collect_report(
    path: &str,
    files: &Vec<SourceFile>,
    now: &str,
    policy: &Option<PolicyFile>,
    repository: &str,
    history: &Option<Vec<CommitRecord>>,
) -> (report: AuditReport)
    ensures
        report@ == audit_report(path@, files@, now@, *policy, repository@, *history),
{
    let mut inventory: Vec<InventoryEntry> = Vec::new();
    assert(inventory.deep_view() =~= Seq::<InventoryEntryView>::empty());
    let mut i: usize = 0;
    while i < files.len()
        invariant
            i <= files@.len(),
            inventory.deep_view() == sorted_by_path(found_entries(files@, i as nat)),
        decreases files@.len() - i,
    {
        let file = &files[i];
        if is_config(file.path.as_str()) {
            let ghost before = found_entries(files@, i as nat);
            let entry = entry_of(file);
            assert(before.push(entry@).drop_last() =~= before);
            insert_entry(&mut inventory, entry);
        }
        i += 1;
    }
    let overview = OverviewSection {
        generated_at: now.to_string(),
        path: path.to_string(),
        total_files: inventory.len(),
        yaml_count: count_in(&inventory, "yaml", "yml"),
        json_count: count_in(&inventory, "json", "json"),
        toml_count: count_in(&inventory, "toml", "toml"),
    };
    let secrets = Some(get_report(files, now));
    let judged = match policy {
        Some(p) => match validate_policy(p) {
            Ok(_) => {
                proof {
                    lemma_valid_policy(*p);
                }
                Some(evaluate_policy(files, p, now))
            },
            Err(_) => None,
        },
        None => None,
    };
    let git_changes = match history {
        Some(h) => {
            let log = collect_log(repository, h, None, 5);
            if log.commits.len() > 0 {
                Some(log)
            } else {
                None
            }
        },
        None => None,
    };
    let risk_level = risk(&secrets, &judged);
    let risk_summary = summary(&secrets, &judged);
    AuditReport {
        overview,
        inventory,
        secrets,
        policy: judged,
        git_changes,
        risk_level,
        risk_summary,
    }
}

/// Audits a list of files. The flag tells whether the audit fails.
pub fn generate_report(
    path: &str,
    files: &Vec<SourceFile>,
    now: &str,
    policy: &Option<PolicyFile>,
    repository: &str,
    history: &Option<Vec<CommitRecord>>,
) -> (r: (AuditReport, bool))
    ensures
        r.0@ == audit_report(path@, files@, now@, *policy, repository@, *history),
        r.1 == (r.0@.risk_level == RiskLevel::Fail),
{
    let report = collect_report(path, files, now, policy, repository, history);
    let is_fail = report.risk_level == RiskLevel::Fail;
    (report, is_fail)
}

} // verus!
