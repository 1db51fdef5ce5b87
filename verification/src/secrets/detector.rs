//! The search for secrets in the text of configuration files.

use vstd::prelude::*;
use vstd::utf8::encode_utf8;
use crate::models::FileSecrets;
use crate::models::FileSecretsView;
use crate::models::SecretFinding;
use crate::models::SecretFindingView;
use crate::models::SecretReport;
use crate::models::SecretReportView;
use crate::models::Severity;
use crate::policy::models::SourceFile;
use crate::policy::patterns::regex_find;
use crate::policy::patterns::regex_first_match;
use crate::secrets::patterns::pattern_table;
use crate::secrets::patterns::secret_patterns;
use crate::secrets::patterns::SecretPattern;
use crate::text::at_boundary;
use crate::text::boundary_at_or_after;
use crate::text::boundary_at_or_before;
use crate::text::byte_slice;
use crate::text::chars_contain;
use crate::text::chars_of;
use crate::text::chars_start_with;
use crate::text::down_boundary;
use crate::text::has_substring;
use crate::text::lines_of;
use crate::text::slice_bytes;
use crate::text::split_lines;
use crate::text::string_views;
use crate::text::trim;
use crate::text::trimmed;
use crate::text::up_boundary;
use crate::utils::add_capped;
use crate::utils::capped;
use crate::utils::is_config;
use crate::utils::is_config_path;
use crate::utils::lemma_capped_sum;

verus! {

/// A line is passed over where, without the white space around it, it
/// is empty, is a comment, or holds one of the marks of a placeholder.
pub open spec fn skipped(line: Seq<char>) -> bool {
    let t = trimmed(line);
    ||| t.len() == 0
    ||| "#"@.is_prefix_of(t)
    ||| "//"@.is_prefix_of(t)
    ||| has_substring(t, "example.com"@)
    ||| has_substring(t, "localhost"@)
    ||| has_substring(t, "127.0.0.1"@)
    ||| has_substring(t, "REPLACE_ME"@)
    ||| has_substring(t, "YOUR_KEY_HERE"@)
    ||| has_substring(t, "XXX"@)
    ||| has_substring(t, "${"@)
    ||| has_substring(t, "{{"@)
    ||| has_substring(t, "%"@)
}

fn begins(v: &Vec<char>, mark: &str) -> (r: bool)
    ensures
        r == mark@.is_prefix_of(v@),
{
    let m = chars_of(mark);
    chars_start_with(v, &m)
}

fn holds(v: &Vec<char>, mark: &str) -> (r: bool)
    ensures
        r == has_substring(v@, mark@),
{
    let m = chars_of(mark);
    chars_contain(v, &m)
}

/// Whether a line is passed over in the search for secrets.
pub fn should_skip_line(line: &str) -> (r: bool)
    ensures
        r == skipped(line@),
{
    let v = chars_of(trim(line));
    v.len() == 0 || begins(&v, "#") || begins(&v, "//") || holds(&v, "example.com") || holds(
        &v,
        "localhost",
    ) || holds(&v, "127.0.0.1") || holds(&v, "REPLACE_ME") || holds(&v, "YOUR_KEY_HERE")
        || holds(&v, "XXX") || holds(&v, "${") || holds(&v, "{{") || holds(&v, "%")
}

/// A secret as it is shown: up to its fourth byte, to the end of the
/// character in which that byte lies, and three dots; a secret of at
/// most four bytes as three dots alone.
pub open spec fn redacted(text: Seq<char>, start: int, end: int) -> Seq<char> {
    if end - start <= 4 {
        "..."@
    } else {
        byte_slice(text, start, up_boundary(text, start + 4)) + "..."@
    }
}

/// A boundary behind `i` is not passed by `up_boundary`.
pub proof fn lemma_up_boundary_le(s: Seq<char>, i: int, j: int)
    requires
        0 <= i <= j,
        at_boundary(s, j),
    ensures
        i <= up_boundary(s, i) <= j,
    decreases j - i,
{
    if i < j && !at_boundary(s, i) {
        lemma_up_boundary_le(s, i + 1, j);
    }
}

/// A boundary before `i` is not passed by `down_boundary`.
pub proof fn lemma_down_boundary_ge(s: Seq<char>, i: int, j: int)
    requires
        0 <= j <= i,
        at_boundary(s, j),
    ensures
        j <= down_boundary(s, i) <= i,
    decreases i - j,
{
    if j < i && !at_boundary(s, i) {
        lemma_down_boundary_ge(s, i - 1, j);
    }
}

/// Shows the secret that lies in `text` from byte `start` up to byte
/// `end`.
pub fn redact_secret(text: &str, start: usize, end: usize) -> (r: String)
    requires
        start <= end,
        at_boundary(text@, start as int),
        at_boundary(text@, end as int),
    ensures
        r@ == redacted(text@, start as int, end as int),
{
    if end - start <= 4 {
        return "...".to_string();
    }
    proof {
        lemma_up_boundary_le(text@, start + 4, end as int);
    }
    let cut = boundary_at_or_after(text, start + 4);
    let mut r = slice_bytes(text, start, cut).to_string();
    r.append("...");
    r
}

/// What is shown of a line around a secret: up to ten bytes before it,
/// the secret redacted, and up to ten bytes behind it. Where ten bytes
/// would cut a character, the character is left out.
pub open spec fn snippet_of(line: Seq<char>, start: int, end: int) -> Seq<char> {
    let len = encode_utf8(line).len() as int;
    let from = up_boundary(line, if start >= 10 { start - 10 } else { 0 });
    let to = down_boundary(line, if end + 10 <= len { end + 10 } else { len });
    byte_slice(line, from, start) + redacted(line, start, end) + byte_slice(line, end, to)
}

/// What is shown of a line around the secret that lies in it from byte
/// `start` up to byte `end`.
pub fn snippet(line: &str, start: usize, end: usize) -> (r: String)
    requires
        start <= end,
        at_boundary(line@, start as int),
        at_boundary(line@, end as int),
    ensures
        r@ == snippet_of(line@, start as int, end as int),
{
    let len = line.as_bytes().len();
    let low: usize = if start >= 10 { start - 10 } else { 0 };
    let high: usize = if len >= 10 && end <= len - 10 { end + 10 } else { len };
    proof {
        lemma_up_boundary_le(line@, low as int, start as int);
        lemma_down_boundary_ge(line@, high as int, end as int);
    }
    let from = boundary_at_or_after(line, low);
    let to = boundary_at_or_before(line, high);
    let mut r = slice_bytes(line, from, start).to_string();
    r.append(redact_secret(line, start, end).as_str());
    r.append(slice_bytes(line, end, to));
    r
}

/// The finding of a pattern whose match lies in a line from byte `start`
/// up to byte `end`.
pub open spec fn finding_at(
    line: Seq<char>,
    number: nat,
    pattern: SecretPattern,
    start: int,
    end: int,
) -> SecretFindingView {
    SecretFindingView {
        secret_type: pattern.secret_type,
        severity: pattern.severity,
        line: number,
        snippet: snippet_of(line, start, end),
        matched_pattern: pattern.name@,
    }
}

/// What a pattern finds in a line with a given number.
pub open spec fn finding_of(line: Seq<char>, number: nat, pattern: SecretPattern) -> Option<
    SecretFindingView,
> {
    match regex_first_match(pattern.regex@, line) {
        Some((start, end)) => Some(finding_at(line, number, pattern, start, end)),
        None => None,
    }
}

/// Records the match of a pattern in a line.
pub fn record_finding(
    line: &str,
    number: usize,
    pattern: &SecretPattern,
    start: usize,
    end: usize,
) -> (finding: SecretFinding)
    requires
        start <= end,
        at_boundary(line@, start as int),
        at_boundary(line@, end as int),
    ensures
        finding@ == finding_at(line@, number as nat, *pattern, start as int, end as int),
{
    SecretFinding {
        secret_type: pattern.secret_type,
        severity: pattern.severity,
        line: number,
        snippet: snippet(line, start, end),
        matched_pattern: pattern.name.to_string(),
    }
}

/// What the first `n` patterns find in a line, in the order of the
/// patterns.
pub open spec fn line_findings(
    line: Seq<char>,
    number: nat,
    patterns: Seq<SecretPattern>,
    n: nat,
) -> Seq<SecretFindingView>
    decreases n,
{
    if n == 0 {
        Seq::empty()
    } else {
        let before = line_findings(line, number, patterns, (n - 1) as nat);
        match finding_of(line, number, patterns[n - 1]) {
            Some(f) => before.push(f),
            None => before,
        }
    }
}

/// What the patterns find in the first `n` lines, line by line. Lines
/// are numbered from one; a line that is passed over is not searched.
pub open spec fn lines_findings(
    lines: Seq<Seq<char>>,
    patterns: Seq<SecretPattern>,
    n: nat,
) -> Seq<SecretFindingView>
    decreases n,
{
    if n == 0 {
        Seq::empty()
    } else {
        let before = lines_findings(lines, patterns, (n - 1) as nat);
        if skipped(lines[n - 1]) {
            before
        } else {
            before + line_findings(lines[n - 1], n, patterns, patterns.len())
        }
    }
}

/// The secrets in the text of a file.
pub open spec fn secrets_in(content: Seq<char>) -> Seq<SecretFindingView> {
    lines_findings(lines_of(content), pattern_table(), lines_of(content).len())
}

/// Searches the text of a file for secrets.
pub fn detect_secrets_in_file(content: &str) -> (findings: Vec<SecretFinding>)
    ensures
        findings.deep_view() == secrets_in(content@),
{
    let lines = split_lines(content);
    let patterns = secret_patterns();
    let ghost texts = string_views(lines@);
    let ghost table = patterns@;
    let mut findings: Vec<SecretFinding> = Vec::new();
    assert(findings.deep_view() =~= Seq::<SecretFindingView>::empty());
    let mut i: usize = 0;
    while i < lines.len()
        invariant
            i <= lines@.len(),
            texts == string_views(lines@),
            table == patterns@,
            findings.deep_view() == lines_findings(texts, table, i as nat),
        decreases lines@.len() - i,
    {
        let line = lines[i].as_str();
        assert(line@ == texts[i as int]);
        if !should_skip_line(line) {
            let ghost start = findings.deep_view();
            let mut j: usize = 0;
            assert(start + Seq::<SecretFindingView>::empty() =~= start);
            while j < patterns.len()
                invariant
                    j <= patterns@.len(),
                    i < lines@.len(),
                    i < usize::MAX,
                    texts == string_views(lines@),
                    table == patterns@,
                    line@ == texts[i as int],
                    findings.deep_view() == start + line_findings(
                        line@,
                        (i + 1) as nat,
                        table,
                        j as nat,
                    ),
                decreases patterns@.len() - j,
            {
                let pattern = &patterns[j];
                let ghost before = findings.deep_view();
                let ghost found = line_findings(line@, (i + 1) as nat, table, j as nat);
                if let Some((s, e)) = regex_find(pattern.regex, line) {
                    let finding = record_finding(line, i + 1, pattern, s, e);
                    let ghost fv = finding@;
                    findings.push(finding);
                    proof {
                        assert(findings.deep_view() =~= before.push(fv));
                        assert(start + found.push(fv) =~= before.push(fv));
                    }
                }
                j += 1;
            }
        }
        i += 1;
    }
    findings
}

/// What the search finds in a file: nothing in a file that is no
/// configuration file or could not be read.
pub open spec fn source_secrets(file: SourceFile) -> Seq<SecretFindingView> {
    if !is_config_path(file.path@) {
        Seq::empty()
    } else {
        match file.text() {
            Some(text) => secrets_in(text),
            None => Seq::empty(),
        }
    }
}

/// The files among the first `n` in which secrets were found, each with
/// its findings.
pub open spec fn files_with_secrets(files: Seq<SourceFile>, n: nat) -> Seq<FileSecretsView>
    decreases n,
{
    if n == 0 {
        Seq::empty()
    } else {
        let before = files_with_secrets(files, (n - 1) as nat);
        let found = source_secrets(files[n - 1]);
        if found.len() == 0 {
            before
        } else {
            before.push(FileSecretsView { path: files[n - 1].path@, findings: found })
        }
    }
}

/// How many of the first `n` files are configuration files.
pub open spec fn scanned_count(files: Seq<SourceFile>, n: nat) -> nat
    decreases n,
{
    if n == 0 {
        0
    } else {
        scanned_count(files, (n - 1) as nat) + if is_config_path(files[n - 1].path@) {
            1nat
        } else {
            0nat
        }
    }
}

/// How many of the findings are of the given severity.
pub open spec fn count_findings(findings: Seq<SecretFindingView>, severity: Severity) -> nat
    decreases findings.len(),
{
    if findings.len() == 0 {
        0
    } else {
        count_findings(findings.drop_last(), severity) + if findings.last().severity == severity {
            1nat
        } else {
            0nat
        }
    }
}

/// How many findings of the given severity the files have together.
pub open spec fn total_findings(files: Seq<FileSecretsView>, severity: Severity) -> nat
    decreases files.len(),
{
    if files.len() == 0 {
        0
    } else {
        total_findings(files.drop_last(), severity) + count_findings(
            files.last().findings,
            severity,
        )
    }
}

/// The report of the search in a list of files. A count that does not
/// fit `usize` is given as the greatest `usize`.
pub open spec fn secret_report(files: Seq<SourceFile>, scanned_at: Seq<char>) -> SecretReportView {
    let found = files_with_secrets(files, files.len());
    let critical = total_findings(found, Severity::Critical);
    let high = total_findings(found, Severity::High);
    SecretReportView {
        scanned_at: scanned_at,
        total_files: scanned_count(files, files.len()),
        files_with_secrets: found.len(),
        total_findings: capped(critical + high),
        critical_count: capped(critical),
        high_count: capped(high),
        files: found,
    }
}

fn count_by_severity(findings: &Vec<SecretFinding>, severity: Severity) -> (n: usize)
    ensures
        n == count_findings(findings.deep_view(), severity),
{
    let ghost all = findings.deep_view();
    let mut n: usize = 0;
    let mut i: usize = 0;
    while i < findings.len()
        invariant
            i <= findings@.len(),
            all == findings.deep_view(),
            n <= i,
            n == count_findings(all.take(i as int), severity),
        decreases findings@.len() - i,
    {
        assert(all.take(i + 1).drop_last() =~= all.take(i as int));
        assert(all.take(i + 1).last() == findings@[i as int]@);
        if findings[i].severity == severity {
            n += 1;
        }
        i += 1;
    }
    assert(all.take(findings@.len() as int) =~= all);
    n
}

fn search_source(file: &SourceFile) -> (r: Vec<SecretFinding>)
    ensures
        r.deep_view() == source_secrets(*file),
{
    if is_config(file.path.as_str()) {
        if let Some(text) = file.read_text() {
            return detect_secrets_in_file(text.as_str());
        }
    }
    let none: Vec<SecretFinding> = Vec::new();
    assert(none.deep_view() =~= Seq::<SecretFindingView>::empty());
    none
}

/// Searches every configuration file of a list for secrets. A file that
/// could not be read counts as scanned and has no findings.
pub fn scan_directory(files: &Vec<SourceFile>, scanned_at: &str) -> (report: SecretReport)
    ensures
        report@ == secret_report(files@, scanned_at@),
{
    let mut found: Vec<FileSecrets> = Vec::new();
    let mut total_files: usize = 0;
    let mut critical_count: usize = 0;
    let mut high_count: usize = 0;
    assert(found.deep_view() =~= Seq::<FileSecretsView>::empty());
    let mut i: usize = 0;
    while i < files.len()
        invariant
            i <= files@.len(),
            total_files <= i,
            total_files == scanned_count(files@, i as nat),
            found.deep_view() == files_with_secrets(files@, i as nat),
            critical_count == capped(total_findings(found.deep_view(), Severity::Critical)),
            high_count == capped(total_findings(found.deep_view(), Severity::High)),
        decreases files@.len() - i,
    {
        let file = &files[i];
        if is_config(file.path.as_str()) {
            total_files += 1;
        }
        let findings = search_source(file);
        if findings.len() > 0 {
            let ghost before = found.deep_view();
            let ghost fv = findings.deep_view();
            critical_count =
            add_capped(critical_count, count_by_severity(&findings, Severity::Critical));
            high_count = add_capped(high_count, count_by_severity(&findings, Severity::High));
            let entry = FileSecrets { path: file.path.clone(), findings };
            let ghost ev = entry@;
            found.push(entry);
            proof {
                let after = found.deep_view();
                assert(after =~= before.push(ev));
                assert(after.drop_last() =~= before);
                lemma_capped_sum(
                    total_findings(before, Severity::Critical),
                    count_findings(fv, Severity::Critical),
                );
                lemma_capped_sum(
                    total_findings(before, Severity::High),
                    count_findings(fv, Severity::High),
                );
            }
        }
        i += 1;
    }
    let total = add_capped(critical_count, high_count);
    SecretReport {
        scanned_at: scanned_at.to_string(),
        total_files,
        files_with_secrets: found.len(),
        total_findings: total,
        critical_count,
        high_count,
        files: found,
    }
}

} // verus!
