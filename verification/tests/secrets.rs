use configtrace::models::SecretType;
use configtrace::models::Severity;
use configtrace::policy::models::SourceFile;
use configtrace::secrets::detector::detect_secrets_in_file;
use configtrace::secrets::detector::record_finding;
use configtrace::secrets::detector::redact_secret;
use configtrace::secrets::detector::snippet;
use configtrace::secrets::detector::scan_directory;
use configtrace::secrets::detector::should_skip_line;
use configtrace::secrets::get_report;
use configtrace::secrets::patterns::secret_patterns;
use configtrace::secrets::scan_for_secrets;
use configtrace::text::boundary_at_or_after;
use configtrace::text::boundary_at_or_before;
use configtrace::text::slice_bytes;
use configtrace::text::split_lines;

#[test]
fn test_should_skip_line() {
    assert!(should_skip_line(""));
    assert!(should_skip_line("   "));
    assert!(should_skip_line("# This is a comment"));
    assert!(should_skip_line("// This is a comment"));
    assert!(should_skip_line("password: example.com"));
    assert!(should_skip_line("api_key: REPLACE_ME"));
    assert!(should_skip_line("token: ${TOKEN}"));
    assert!(should_skip_line("secret: {{SECRET}}"));
    assert!(!should_skip_line("password: realpassword123"));
}

#[test]
fn test_redact_secret() {
    assert_eq!(redact_secret("secretkey123456", 0, 15), "secr...");
    assert_eq!(redact_secret("abc", 0, 3), "...");
}

#[test]
fn every_placeholder_mark_skips_a_line() {
    for line in [
        "host: localhost",
        "host: 127.0.0.1",
        "key: YOUR_KEY_HERE",
        "key: XXXX",
        "ratio: 50%",
        "   # indented comment",
        "\t// indented comment",
    ] {
        assert!(should_skip_line(line), "{:?}", line);
    }
    for line in ["key: value # trailing", "url: http://host/path", "a: {b}", "x: $HOME"] {
        assert!(!should_skip_line(line), "{:?}", line);
    }
}

#[test]
fn redaction_keeps_four_bytes_of_a_longer_secret() {
    assert_eq!(redact_secret("xx12345yy", 2, 7), "1234...");
    assert_eq!(redact_secret("xx1234yy", 2, 6), "...");
    assert_eq!(redact_secret("", 0, 0), "...");
    assert_eq!(redact_secret("abcé€fgh", 0, 11), "abcé...");
}

#[test]
fn lines_end_with_a_line_feed() {
    assert_eq!(split_lines("a\nb\n"), vec!["a", "b"]);
    assert_eq!(split_lines("a\r\nb"), vec!["a", "b"]);
    assert_eq!(split_lines("a\n\nb"), vec!["a", "", "b"]);
    assert_eq!(split_lines("\n"), vec![""]);
    assert!(split_lines("").is_empty());
    for text in ["x\ry\r\n", "last\r", "é\r\r\n\rz", "\r\n\r\n", "one"] {
        let expected: Vec<&str> = text.lines().collect();
        assert_eq!(split_lines(text), expected, "{:?}", text);
    }
}

#[test]
fn byte_slices_follow_character_boundaries() {
    let s = "aé€b";
    assert_eq!(slice_bytes(s, 1, 6), "é€");
    assert_eq!(slice_bytes(s, 0, 0), "");
    assert_eq!(boundary_at_or_after(s, 2), 3);
    assert_eq!(boundary_at_or_after(s, 3), 3);
    assert_eq!(boundary_at_or_after(s, 7), 7);
    assert_eq!(boundary_at_or_before(s, 5), 3);
    assert_eq!(boundary_at_or_before(s, 2), 1);
    assert_eq!(boundary_at_or_before(s, 0), 0);
}

#[test]
fn a_password_is_found_and_redacted() {
    let text = "name: app\n# password: commented1\ndb_password: hunter2hunter2\n";
    let findings = detect_secrets_in_file(text);
    assert_eq!(findings.len(), 1);
    assert_eq!(findings[0].secret_type, SecretType::GenericPassword);
    assert_eq!(findings[0].severity, Severity::Critical);
    assert_eq!(findings[0].line, 3);
    assert_eq!(findings[0].matched_pattern, "Generic Password");
    assert_eq!(findings[0].snippet, "db_pass...");
}

#[test]
fn the_snippet_shows_ten_bytes_around_the_secret() {
    let token = format!("ghp_{}", "a".repeat(36));
    let line = format!("0123456789abcdef {} 0123456789abcdef", token);
    let findings = detect_secrets_in_file(&line);
    assert_eq!(findings.len(), 1);
    assert_eq!(findings[0].secret_type, SecretType::GithubToken);
    assert_eq!(findings[0].line, 1);
    assert_eq!(findings[0].snippet, "789abcdef ghp_... 012345678");
}

#[test]
fn the_snippet_does_not_cut_a_character() {
    let token = format!("ghp_{}", "a".repeat(36));
    let line = format!("ééééééé{}€€€€", token);
    let findings = detect_secrets_in_file(&line);
    assert_eq!(findings.len(), 1);
    assert_eq!(findings[0].snippet, "éééééghp_...€€€");
}

#[test]
fn a_finding_records_where_the_match_lies() {
    let table = secret_patterns();
    let finding = record_finding("key = abcdefgh # note", 7, &table[6], 6, 14);
    assert_eq!(finding.line, 7);
    assert_eq!(finding.secret_type, SecretType::GenericPassword);
    assert_eq!(finding.severity, Severity::Critical);
    assert_eq!(finding.matched_pattern, "Generic Password");
    assert_eq!(finding.snippet, "key = abcd... # note");
    assert_eq!(snippet("ab", 0, 2), "...");
    assert_eq!(snippet("0123456789012secret78901234567890", 13, 19), "3456789012secr...7890123456");
}

#[test]
fn one_line_can_match_several_patterns() {
    let key = format!("api_key: \"{}\"", "k".repeat(24));
    let jwt = format!("eyJ{}.{}.{}", "a".repeat(12), "b".repeat(12), "c".repeat(12));
    let text = format!("first: 1\r\n{} {}\r\n", key, jwt);
    let findings = detect_secrets_in_file(&text);
    let kinds: Vec<SecretType> = findings.iter().map(|f| f.secret_type).collect();
    assert_eq!(kinds, vec![SecretType::GenericApiKey, SecretType::JwtToken]);
    assert!(findings.iter().all(|f| f.line == 2 && f.severity == Severity::High));
}

#[test]
fn the_patterns_are_nine_that_compile() {
    let table = secret_patterns();
    assert_eq!(table.len(), 9);
    assert_eq!(table[0].name, "AWS Access Key ID");
    assert_eq!(table[8].secret_type, SecretType::JwtToken);
    for p in &table {
        assert!(regex::Regex::new(p.regex).is_ok(), "{}", p.name);
    }
    let critical = table.iter().filter(|p| p.severity == Severity::Critical).count();
    assert_eq!(critical, 7);
}

fn source(path: &str, content: Option<&str>) -> SourceFile {
    SourceFile { path: path.to_string(), data: content.map(|c| c.as_bytes().to_vec()) }
}

#[test]
fn the_report_counts_files_and_findings() {
    let files = vec![
        source("a.yaml", Some("password: hunter2hunter2\nurl: postgres://u:pw@db/x\n")),
        source("clean.json", Some("{\"k\": 1}")),
        source("notes.txt", Some("password: hunter2hunter2")),
        source("unread.toml", None),
        source("b.toml", Some("api_key = \"abcdefghijklmnopqrstuvwx\"\n")),
    ];
    let report = scan_directory(&files, "2024-05-05T00:00:00+00:00");
    assert_eq!(report.scanned_at, "2024-05-05T00:00:00+00:00");
    assert_eq!(report.total_files, 4);
    assert_eq!(report.files_with_secrets, 2);
    assert_eq!(report.critical_count, 2);
    assert_eq!(report.high_count, 1);
    assert_eq!(report.total_findings, 3);
    let paths: Vec<&str> = report.files.iter().map(|f| f.path.as_str()).collect();
    assert_eq!(paths, vec!["a.yaml", "b.toml"]);
    assert_eq!(report.files[0].findings.len(), 2);
    assert_eq!(report.files[0].findings[1].secret_type, SecretType::DatabaseUrl);
    assert_eq!(report.files[0].findings[1].line, 2);

    let again = get_report(&files, "t");
    assert_eq!(again.total_findings, 3);
    let (_, found) = scan_for_secrets(&files, "t");
    assert!(found);
    let (empty, found) = scan_for_secrets(&files[1..2].to_vec(), "t");
    assert!(!found);
    assert_eq!(empty.total_files, 1);
    assert_eq!(empty.total_findings, 0);
}
