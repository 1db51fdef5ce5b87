//! The audit report as Markdown.

use vstd::prelude::*;
use vstd::utf8::encode_utf8;
use crate::git::models::CommitConfigChanges;
use crate::git::models::CommitConfigChangesView;
use crate::git::models::FileChanges;
use crate::git::models::FileChangesView;
use crate::git::models::GitLogReport;
use crate::git::models::GitLogReportView;
use crate::models::FileSecrets;
use crate::models::FileSecretsView;
use crate::models::SecretFinding;
use crate::models::SecretFindingView;
use crate::models::SecretReport;
use crate::models::SecretReportView;
use crate::models::Severity;
use crate::policy::models::FileViolations;
use crate::policy::models::FileViolationsView;
use crate::policy::models::PolicyReport;
use crate::policy::models::PolicyReportView;
use crate::policy::models::Violation;
use crate::policy::models::ViolationView;
use crate::report::models::opt_log;
use crate::report::models::opt_policy;
use crate::report::models::opt_secrets;
use crate::report::models::AuditReport;
use crate::report::models::AuditReportView;
use crate::report::models::InventoryEntry;
use crate::report::models::InventoryEntryView;
use crate::report::models::OverviewSection;
use crate::report::models::OverviewSectionView;
use crate::text::boundary_at_or_before;
use crate::text::byte_slice;
use crate::text::decimal;
use crate::text::down_boundary;
use crate::text::lines_of;
use crate::text::slice_bytes;
use crate::text::split_lines;
use crate::text::string_views;
use crate::text::usize_to_text;
use crate::utils::add_capped;
use crate::utils::capped;

verus! {

/// The first `n` bytes of a text, or all of it where it has fewer; where
/// the `n`th byte lies within a character, the character is left out.
pub open spec fn byte_prefix(s: Seq<char>, n: nat) -> Seq<char> {
    let len = encode_utf8(s).len();
    byte_slice(s, 0, down_boundary(s, if n <= len { n as int } else { len as int }))
}

/// The first `n` bytes of a text.
pub fn byte_prefix_of<'a>(s: &'a str, n: usize) -> (r: &'a str)
    ensures
        r@ == byte_prefix(s@, n as nat),
{
    let len = s.as_bytes().len();
    let end = if n <= len { n } else { len };
    proof {
        vstd::utf8::encode_utf8_valid_utf8(s@);
        vstd::utf8::is_char_boundary_start_end_of_seq(encode_utf8(s@));
    }
    let cut = boundary_at_or_before(s, end);
    slice_bytes(s, 0, cut)
}

/// The first line of a text; nothing for an empty text.
pub open spec fn first_line(s: Seq<char>) -> Seq<char> {
    if lines_of(s).len() > 0 {
        lines_of(s)[0]
    } else {
        Seq::empty()
    }
}

/// The first line of a text.
pub fn first_line_of(s: &str) -> (r: String)
    ensures
        r@ == first_line(s@),
{
    let lines = split_lines(s);
    if lines.len() > 0 {
        assert(string_views(lines@)[0] == lines@[0]@);
        lines[0].clone()
    } else {
        String::new()
    }
}

/// The head of the report: when and where it was made, and how many
/// files it is about.
pub open spec fn head_text(o: OverviewSectionView) -> Seq<char> {
    "# ConfigTrace Audit Report\n\n"@ + "**Generated:** "@ + o.generated_at + " | **Path:** `"@
        + o.path + "` | **Files:** "@ + decimal(o.total_files) + " ("@ + decimal(o.yaml_count)
        + " yaml, "@ + decimal(o.json_count) + " json, "@ + decimal(o.toml_count)
        + " toml)\n\n"@
}

fn head(o: &OverviewSection) -> (md: String)
    ensures
        md@ == head_text(o@),
{
    let mut md = "# ConfigTrace Audit Report\n\n".to_string();
    md.append("**Generated:** ");
    md.append(o.generated_at.as_str());
    md.append(" | **Path:** `");
    md.append(o.path.as_str());
    md.append("` | **Files:** ");
    md.append(usize_to_text(o.total_files).as_str());
    md.append(" (");
    md.append(usize_to_text(o.yaml_count).as_str());
    md.append(" yaml, ");
    md.append(usize_to_text(o.json_count).as_str());
    md.append(" json, ");
    md.append(usize_to_text(o.toml_count).as_str());
    md.append(" toml)\n\n");
    md
}

/// The row of a file in the table of the inventory, with the first
/// twelve bytes of its hash.
pub open spec fn inventory_row(e: InventoryEntryView) -> Seq<char> {
    "| "@ + e.path + " | `"@ + byte_prefix(e.hash, 12) + "` | "@ + e.format + " |\n"@
}

/// The rows of the first `n` files of the inventory.
pub open spec fn inventory_rows(entries: Seq<InventoryEntryView>, n: nat) -> Seq<char>
    decreases n,
{
    if n == 0 {
        Seq::empty()
    } else {
        inventory_rows(entries, (n - 1) as nat) + inventory_row(entries[n - 1])
    }
}

/// The section on the inventory.
pub open spec fn inventory_text(entries: Seq<InventoryEntryView>) -> Seq<char> {
    "## Config Inventory\n\n"@ + "| File | SHA256 | Format |\n"@
        + "|------|--------|--------|\n"@ + inventory_rows(entries, entries.len()) + "\n"@
}

fn inventory_line(e: &InventoryEntry) -> (md: String)
    ensures
        md@ == inventory_row(e@),
{
    let mut md = "| ".to_string();
    md.append(e.path.as_str());
    md.append(" | `");
    md.append(byte_prefix_of(e.hash.as_str(), 12));
    md.append("` | ");
    md.append(e.format.as_str());
    md.append(" |\n");
    md
}

fn inventory(entries: &Vec<InventoryEntry>) -> (md: String)
    ensures
        md@ == inventory_text(entries.deep_view()),
{
    let ghost all = entries.deep_view();
    let mut md = "## Config Inventory\n\n".to_string();
    md.append("| File | SHA256 | Format |\n");
    md.append("|------|--------|--------|\n");
    let ghost top = md@;
    let mut i: usize = 0;
    assert(top + inventory_rows(all, 0) =~= top);
    while i < entries.len()
        invariant
            i <= entries@.len(),
            all == entries.deep_view(),
            md@ == top + inventory_rows(all, i as nat),
        decreases entries@.len() - i,
    {
        let ghost before = inventory_rows(all, i as nat);
        let line = inventory_line(&entries[i]);
        assert(all[i as int] == entries@[i as int]@);
        md.append(line.as_str());
        assert(md@ =~= top + (before + line@));
        i += 1;
    }
    md.append("\n");
    md
}

/// The name of a severity as it is written in the report.
pub open spec fn severity_name(s: Severity) -> Seq<char> {
    match s {
        Severity::Critical => "Critical"@,
        Severity::High => "High"@,
    }
}

/// The line of a finding.
pub open spec fn finding_row(f: SecretFindingView) -> Seq<char> {
    "- **["@ + severity_name(f.severity) + "]** Line "@ + decimal(f.line) + ": "@
        + f.matched_pattern + " - `"@ + f.snippet + "`\n"@
}

/// The lines of the first `n` findings.
pub open spec fn finding_rows(findings: Seq<SecretFindingView>, n: nat) -> Seq<char>
    decreases n,
{
    if n == 0 {
        Seq::empty()
    } else {
        finding_rows(findings, (n - 1) as nat) + finding_row(findings[n - 1])
    }
}

/// The part of the report on the secrets of one file.
pub open spec fn file_secrets_text(f: FileSecretsView) -> Seq<char> {
    "### `"@ + f.path + "`\n\n"@ + finding_rows(f.findings, f.findings.len()) + "\n"@
}

/// The parts on the first `n` files with secrets.
pub open spec fn files_secrets_text(files: Seq<FileSecretsView>, n: nat) -> Seq<char>
    decreases n,
{
    if n == 0 {
        Seq::empty()
    } else {
        files_secrets_text(files, (n - 1) as nat) + file_secrets_text(files[n - 1])
    }
}

/// The section on secrets.
pub open spec fn secrets_text(r: SecretReportView) -> Seq<char> {
    if r.total_findings == 0 {
        "## Secret Findings\n\n"@ + "No secrets found.\n\n"@
    } else {
        "## Secret Findings\n\n"@ + "| Severity | Count |\n"@ + "|----------|-------|\n"@ + (
        if r.critical_count > 0 {
            "| Critical | "@ + decimal(r.critical_count) + " |\n"@
        } else {
            Seq::empty()
        }) + (if r.high_count > 0 {
            "| High | "@ + decimal(r.high_count) + " |\n"@
        } else {
            Seq::empty()
        }) + "\n**Total:** "@ + decimal(r.total_findings) + " findings in "@ + decimal(
            r.files_with_secrets,
        ) + " files\n\n"@ + files_secrets_text(r.files, r.files.len())
    }
}

fn finding_line(f: &SecretFinding) -> (md: String)
    ensures
        md@ == finding_row(f@),
{
    let mut md = "- **[".to_string();
    match f.severity {
        Severity::Critical => md.append("Critical"),
        Severity::High => md.append("High"),
    }
    md.append("]** Line ");
    md.append(usize_to_text(f.line).as_str());
    md.append(": ");
    md.append(f.matched_pattern.as_str());
    md.append(" - `");
    md.append(f.snippet.as_str());
    md.append("`\n");
    md
}

fn file_secrets(f: &FileSecrets) -> (md: String)
    ensures
        md@ == file_secrets_text(f@),
{
    let ghost all = f.findings.deep_view();
    let mut md = "### `".to_string();
    md.append(f.path.as_str());
    md.append("`\n\n");
    let ghost top = md@;
    let mut i: usize = 0;
    assert(top + finding_rows(all, 0) =~= top);
    while i < f.findings.len()
        invariant
            i <= f.findings@.len(),
            all == f.findings.deep_view(),
            md@ == top + finding_rows(all, i as nat),
        decreases f.findings@.len() - i,
    {
        let ghost before = finding_rows(all, i as nat);
        let line = finding_line(&f.findings[i]);
        assert(all[i as int] == f.findings@[i as int]@);
        md.append(line.as_str());
        assert(md@ =~= top + (before + line@));
        i += 1;
    }
    md.append("\n");
    md
}

fn secrets(r: &SecretReport) -> (md: String)
    ensures
        md@ == secrets_text(r@),
{
    let mut md = "## Secret Findings\n\n".to_string();
    if r.total_findings == 0 {
        md.append("No secrets found.\n\n");
        return md;
    }
    md.append("| Severity | Count |\n");
    md.append("|----------|-------|\n");
    if r.critical_count > 0 {
        let ghost before = md@;
        md.append("| Critical | ");
        md.append(usize_to_text(r.critical_count).as_str());
        md.append(" |\n");
        assert(md@ =~= before + ("| Critical | "@ + decimal(r.critical_count as nat) + " |\n"@));
    } else {
        assert(md@ =~= md@ + Seq::<char>::empty());
    }
    if r.high_count > 0 {
        let ghost before = md@;
        md.append("| High | ");
        md.append(usize_to_text(r.high_count).as_str());
        md.append(" |\n");
        assert(md@ =~= before + ("| High | "@ + decimal(r.high_count as nat) + " |\n"@));
    } else {
        assert(md@ =~= md@ + Seq::<char>::empty());
    }
    md.append("\n**Total:** ");
    md.append(usize_to_text(r.total_findings).as_str());
    md.append(" findings in ");
    md.append(usize_to_text(r.files_with_secrets).as_str());
    md.append(" files\n\n");
    let ghost all = r.files.deep_view();
    let ghost top = md@;
    let mut i: usize = 0;
    assert(top + files_secrets_text(all, 0) =~= top);
    while i < r.files.len()
        invariant
            i <= r.files@.len(),
            all == r.files.deep_view(),
            md@ == top + files_secrets_text(all, i as nat),
        decreases r.files@.len() - i,
    {
        let ghost before = files_secrets_text(all, i as nat);
        let part = file_secrets(&r.files[i]);
        assert(all[i as int] == r.files@[i as int]@);
        md.append(part.as_str());
        assert(md@ =~= top + (before + part@));
        i += 1;
    }
    md
}

/// The line of a violation.
pub open spec fn violation_row(v: ViolationView) -> Seq<char> {
    "- **["@ + v.severity.label_text() + "]** `"@ + v.rule_id + "`: "@ + v.message + "\n"@
}

/// The lines of the first `n` violations.
pub open spec fn violation_rows(violations: Seq<ViolationView>, n: nat) -> Seq<char>
    decreases n,
{
    if n == 0 {
        Seq::empty()
    } else {
        violation_rows(violations, (n - 1) as nat) + violation_row(violations[n - 1])
    }
}

/// The part of the report on the violations of one file.
pub open spec fn file_violations_text(f: FileViolationsView) -> Seq<char> {
    "### `"@ + f.path + "`\n\n"@ + violation_rows(f.violations, f.violations.len()) + "\n"@
}

/// The parts on the first `n` files with violations.
pub open spec fn files_violations_text(files: Seq<FileViolationsView>, n: nat) -> Seq<char>
    decreases n,
{
    if n == 0 {
        Seq::empty()
    } else {
        files_violations_text(files, (n - 1) as nat) + file_violations_text(files[n - 1])
    }
}

/// The section on the policy.
pub open spec fn policy_text(r: PolicyReportView) -> Seq<char> {
    if r.total_violations == 0 {
        "## Policy Violations\n\n"@ + "**Policy:** "@ + r.policy_name + "\n\n"@
            + "All checks passed.\n\n"@
    } else {
        "## Policy Violations\n\n"@ + "**Policy:** "@ + r.policy_name + "\n\n"@
            + "| Severity | Count |\n"@ + "|----------|-------|\n"@ + "| Critical | "@ + decimal(
            r.critical_count,
        ) + " |\n"@ + "| High | "@ + decimal(r.high_count) + " |\n"@ + "| Medium | "@ + decimal(
            r.medium_count,
        ) + " |\n"@ + "| Low | "@ + decimal(r.low_count) + " |\n"@ + "\n**Total:** "@ + decimal(
            r.total_violations,
        ) + " violations in "@ + decimal(r.files_with_violations) + " files\n\n"@
            + files_violations_text(r.files, r.files.len())
    }
}

fn violation_line(v: &Violation) -> (md: String)
    ensures
        md@ == violation_row(v@),
{
    let mut md = "- **[".to_string();
    md.append(v.severity.label().as_str());
    md.append("]** `");
    md.append(v.rule_id.as_str());
    md.append("`: ");
    md.append(v.message.as_str());
    md.append("\n");
    md
}

fn file_violations(f: &FileViolations) -> (md: String)
    ensures
        md@ == file_violations_text(f@),
{
    let ghost all = f.violations.deep_view();
    let mut md = "### `".to_string();
    md.append(f.path.as_str());
    md.append("`\n\n");
    let ghost top = md@;
    let mut i: usize = 0;
    assert(top + violation_rows(all, 0) =~= top);
    while i < f.violations.len()
        invariant
            i <= f.violations@.len(),
            all == f.violations.deep_view(),
            md@ == top + violation_rows(all, i as nat),
        decreases f.violations@.len() - i,
    {
        let ghost before = violation_rows(all, i as nat);
        let line = violation_line(&f.violations[i]);
        assert(all[i as int] == f.violations@[i as int]@);
        md.append(line.as_str());
        assert(md@ =~= top + (before + line@));
        i += 1;
    }
    md.append("\n");
    md
}

fn policy(r: &PolicyReport) -> (md: String)
    ensures
        md@ == policy_text(r@),
{
    let mut md = "## Policy Violations\n\n".to_string();
    md.append("**Policy:** ");
    md.append(r.policy_name.as_str());
    md.append("\n\n");
    if r.total_violations == 0 {
        md.append("All checks passed.\n\n");
        return md;
    }
    md.append("| Severity | Count |\n");
    md.append("|----------|-------|\n");
    md.append("| Critical | ");
    md.append(usize_to_text(r.critical_count).as_str());
    md.append(" |\n");
    md.append("| High | ");
    md.append(usize_to_text(r.high_count).as_str());
    md.append(" |\n");
    md.append("| Medium | ");
    md.append(usize_to_text(r.medium_count).as_str());
    md.append(" |\n");
    md.append("| Low | ");
    md.append(usize_to_text(r.low_count).as_str());
    md.append(" |\n");
    md.append("\n**Total:** ");
    md.append(usize_to_text(r.total_violations).as_str());
    md.append(" violations in ");
    md.append(usize_to_text(r.files_with_violations).as_str());
    md.append(" files\n\n");
    let ghost all = r.files.deep_view();
    let ghost top = md@;
    let mut i: usize = 0;
    assert(top + files_violations_text(all, 0) =~= top);
    while i < r.files.len()
        invariant
            i <= r.files@.len(),
            all == r.files.deep_view(),
            md@ == top + files_violations_text(all, i as nat),
        decreases r.files@.len() - i,
    {
        let ghost before = files_violations_text(all, i as nat);
        let part = file_violations(&r.files[i]);
        assert(all[i as int] == r.files@[i as int]@);
        md.append(part.as_str());
        assert(md@ =~= top + (before + part@));
        i += 1;
    }
    md
}

/// The line of a changed file: how many of its keys changed in all. A
/// number that does not fit `usize` is given as the greatest `usize`.
pub open spec fn changed_file_row(f: FileChangesView) -> Seq<char> {
    "  - `"@ + f.path + "`: ~"@ + decimal(
        capped(capped(f.keys_added + f.keys_removed) + f.keys_changed),
    ) + " keys changed\n"@
}

/// The lines of the first `n` changed files.
pub open spec fn changed_file_rows(files: Seq<FileChangesView>, n: nat) -> Seq<char>
    decreases n,
{
    if n == 0 {
        Seq::empty()
    } else {
        changed_file_rows(files, (n - 1) as nat) + changed_file_row(files[n - 1])
    }
}

/// The part of the report on one commit: its short id, the first line
/// of its message, its author, the first ten bytes of its date, and its
/// files.
pub open spec fn commit_text(c: CommitConfigChangesView) -> Seq<char> {
    "- **"@ + c.commit_hash + "** - "@ + first_line(c.message) + " ("@ + c.author + ", "@
        + byte_prefix(c.date, 10) + ")\n"@ + changed_file_rows(c.files, c.files.len())
}

/// The parts on the first `n` commits.
pub open spec fn commits_text(commits: Seq<CommitConfigChangesView>, n: nat) -> Seq<char>
    decreases n,
{
    if n == 0 {
        Seq::empty()
    } else {
        commits_text(commits, (n - 1) as nat) + commit_text(commits[n - 1])
    }
}

/// The section on the newest changes.
pub open spec fn changes_text(r: GitLogReportView) -> Seq<char> {
    "## Recent Changes (last "@ + decimal(r.commits_analyzed) + " commits)\n\n"@ + commits_text(
        r.commits,
        r.commits.len(),
    ) + "\n"@
}

fn changed_file_line(f: &FileChanges) -> (md: String)
    ensures
        md@ == changed_file_row(f@),
{
    let total = add_capped(add_capped(f.keys_added, f.keys_removed), f.keys_changed);
    let mut md = "  - `".to_string();
    md.append(f.path.as_str());
    md.append("`: ~");
    md.append(usize_to_text(total).as_str());
    md.append(" keys changed\n");
    md
}

fn commit_part(c: &CommitConfigChanges) -> (md: String)
    ensures
        md@ == commit_text(c@),
{
    let mut md = "- **".to_string();
    md.append(c.commit_hash.as_str());
    md.append("** - ");
    md.append(first_line_of(c.message.as_str()).as_str());
    md.append(" (");
    md.append(c.author.as_str());
    md.append(", ");
    md.append(byte_prefix_of(c.date.as_str(), 10));
    md.append(")\n");
    let ghost all = c.files.deep_view();
    let ghost top = md@;
    let mut i: usize = 0;
    assert(top + changed_file_rows(all, 0) =~= top);
    while i < c.files.len()
        invariant
            i <= c.files@.len(),
            all == c.files.deep_view(),
            md@ == top + changed_file_rows(all, i as nat),
        decreases c.files@.len() - i,
    {
        let ghost before = changed_file_rows(all, i as nat);
        let line = changed_file_line(&c.files[i]);
        assert(all[i as int] == c.files@[i as int]@);
        md.append(line.as_str());
        assert(md@ =~= top + (before + line@));
        i += 1;
    }
    md
}

fn changes(r: &GitLogReport) -> (md: String)
    ensures
        md@ == changes_text(r@),
{
    let mut md = "## Recent Changes (last ".to_string();
    md.append(usize_to_text(r.commits_analyzed).as_str());
    md.append(" commits)\n\n");
    let ghost all = r.commits.deep_view();
    let ghost top = md@;
    let mut i: usize = 0;
    assert(top + commits_text(all, 0) =~= top);
    while i < r.commits.len()
        invariant
            i <= r.commits@.len(),
            all == r.commits.deep_view(),
            md@ == top + commits_text(all, i as nat),
        decreases r.commits@.len() - i,
    {
        let ghost before = commits_text(all, i as nat);
        let part = commit_part(&r.commits[i]);
        assert(all[i as int] == r.commits@[i as int]@);
        md.append(part.as_str());
        assert(md@ =~= top + (before + part@));
        i += 1;
    }
    md.append("\n");
    md
}

/// A section, or nothing where there is none.
pub open spec fn or_nothing(section: Option<Seq<char>>) -> Seq<char> {
    match section {
        Some(t) => t,
        None => Seq::empty(),
    }
}

/// The audit report as Markdown: its head, the inventory, the sections
/// on secrets, on the policy and on the newest changes as far as the
/// report has them, and the outcome.
pub open spec fn markdown_text(r: AuditReportView) -> Seq<char> {
    head_text(r.overview) + inventory_text(r.inventory) + or_nothing(
        match r.secrets {
            Some(s) => Some(secrets_text(s)),
            None => None,
        },
    ) + or_nothing(
        match r.policy {
            Some(p) => Some(policy_text(p)),
            None => None,
        },
    ) + or_nothing(
        match r.git_changes {
            Some(g) => Some(changes_text(g)),
            None => None,
        },
    ) + "## Risk Summary\n\n"@ + "**"@ + r.risk_level.label_text() + "** -- "@ + r.risk_summary
        + "\n"@
}

/// Writes the audit report as Markdown.
pub fn output_markdown(report: &AuditReport) -> (md: String)
    ensures
        md@ == markdown_text(report@),
{
    let mut md = head(&report.overview);
    md.append(inventory(&report.inventory).as_str());
    match &report.secrets {
        Some(s) => {
            md.append(secrets(s).as_str());
        },
        None => {
            assert(md@ =~= md@ + Seq::<char>::empty());
        },
    }
    match &report.policy {
        Some(p) => {
            md.append(policy(p).as_str());
        },
        None => {
            assert(md@ =~= md@ + Seq::<char>::empty());
        },
    }
    match &report.git_changes {
        Some(g) => {
            md.append(changes(g).as_str());
        },
        None => {
            assert(md@ =~= md@ + Seq::<char>::empty());
        },
    }
    md.append("## Risk Summary\n\n");
    md.append("**");
    md.append(report.risk_level.label().as_str());
    md.append("** -- ");
    md.append(report.risk_summary.as_str());
    md.append("\n");
    md
}

} // verus!
