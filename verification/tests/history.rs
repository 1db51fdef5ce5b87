use configtrace::git::build_commit_entry;
use configtrace::git::build_file_changes;
use configtrace::git::collect_log;
use configtrace::git::evaluate_policy_on_map;
use configtrace::git::git_diff;
use configtrace::git::git_log;
use configtrace::git::models::FileChanges;
use configtrace::git::models::KeyChange;
use configtrace::git::models::KeyChangeKind;
use configtrace::git::repo::collect_config_files;
use configtrace::git::repo::get_file_content_at_commit;
use configtrace::git::repo::list_config_files_in_tree;
use configtrace::git::repo::tree_has_file;
use configtrace::git::repo::walk_commits;
use configtrace::git::repo::CommitRecord;
use configtrace::git::repo::TreeEntry;
use configtrace::git::repo::TreeSnapshot;
use configtrace::flat::FlatConfigMap;
use configtrace::policy::loader::PolicyError;
use configtrace::policy::models::CheckDefinition;
use configtrace::policy::models::PolicyFile;
use configtrace::policy::models::PolicySeverity;
use configtrace::policy::models::RuleDefinition;

fn tree(files: &[(&str, &str)]) -> TreeSnapshot {
    TreeSnapshot {
        entries: files
            .iter()
            .map(|(p, c)| TreeEntry { path: p.to_string(), data: c.as_bytes().to_vec() })
            .collect(),
    }
}

fn commit(id: &str, seconds: i64, own: TreeSnapshot, parent: Option<TreeSnapshot>) -> CommitRecord {
    CommitRecord {
        id: id.to_string(),
        author: Some("Ada".to_string()),
        time_seconds: seconds,
        message: Some(format!("  change {}\n\n", id)),
        tree: own,
        parent,
    }
}

fn kinds(file: &FileChanges) -> Vec<(String, KeyChangeKind)> {
    file.changes.iter().map(|c| (c.key.clone(), c.kind)).collect()
}

fn policy(rules: Vec<RuleDefinition>) -> PolicyFile {
    PolicyFile { name: "p".to_string(), description: None, rules }
}

fn require(id: &str, key: &str) -> RuleDefinition {
    RuleDefinition {
        id: id.to_string(),
        description: None,
        severity: PolicySeverity::High,
        pattern: None,
        check: CheckDefinition::RequiredKey { key: key.to_string() },
    }
}

#[test]
fn history_walk_pairs_each_commit_with_its_parent() {
    let t1 = tree(&[("a.yaml", "{}\n"), ("README.md", "hello")]);
    let t2 = tree(&[("a.yaml", "x:\n  y: 1\n"), ("README.md", "hello")]);
    let t3 = tree(&[("a.yaml", "{}\n"), ("README.md", "hello")]);
    let history = vec![
        commit("c3c3c3c3c3c3c3c3", 1431648120, t3, Some(t2.clone())),
        commit("c2c2c2c2c2c2c2c2", 1431648060, t2, Some(t1.clone())),
        commit("c1c1c1c1c1c1c1c1", 1431648000, t1, None),
    ];
    let report = collect_log("/repo", &history, None, 10);
    assert_eq!(report.repository, "/repo");
    assert_eq!(report.path_filter, None);
    assert_eq!(report.commits_analyzed, 2);
    assert_eq!(report.commits.len(), 2);

    let newest = &report.commits[0];
    assert_eq!(newest.commit_hash_full, "c3c3c3c3c3c3c3c3");
    assert_eq!(newest.commit_hash, "c3c3c3c");
    assert_eq!(newest.author, "Ada");
    assert_eq!(newest.message, "change c3c3c3c3c3c3c3c3");
    assert_eq!(newest.date, "2015-05-15T00:02:00+00:00");
    assert_eq!(newest.files.len(), 1);
    assert_eq!(newest.files[0].path, "a.yaml");
    assert_eq!(kinds(&newest.files[0]), vec![("x.y".to_string(), KeyChangeKind::Removed)]);
    assert_eq!(newest.files[0].changes[0].old_value.as_deref(), Some("1"));
    assert_eq!(newest.files[0].keys_removed, 1);
    assert_eq!(newest.files[0].keys_added, 0);

    let middle = &report.commits[1];
    assert_eq!(middle.commit_hash_full, "c2c2c2c2c2c2c2c2");
    assert_eq!(middle.files.len(), 1);
    assert_eq!(kinds(&middle.files[0]), vec![("x.y".to_string(), KeyChangeKind::Added)]);
    assert_eq!(middle.files[0].changes[0].new_value.as_deref(), Some("1"));
    assert_eq!(middle.files[0].keys_added, 1);
}

#[test]
fn history_walk_stops_at_the_limit() {
    let t1 = tree(&[("a.yaml", "k: 1\n")]);
    let t2 = tree(&[("a.yaml", "k: 2\n")]);
    let t3 = tree(&[("a.yaml", "k: 3\n")]);
    let history = vec![
        commit("3", 3, t3, Some(t2.clone())),
        commit("2", 2, t2, Some(t1.clone())),
        commit("1", 1, t1, None),
    ];
    assert_eq!(collect_log("r", &history, None, 0).commits.len(), 0);
    assert_eq!(collect_log("r", &history, None, 1).commits.len(), 1);
    assert_eq!(collect_log("r", &history, None, 2).commits.len(), 2);
    let all = collect_log("r", &history, None, 10);
    assert_eq!(all.commits.len(), 3);
    assert_eq!(all.commits_analyzed, 3);
    assert_eq!(kinds(&all.commits[2].files[0]), vec![("k".to_string(), KeyChangeKind::Added)]);
    assert_eq!(kinds(&all.commits[0].files[0]), vec![("k".to_string(), KeyChangeKind::Changed)]);
    assert_eq!(all.commits[0].commit_hash, "3");
}

#[test]
fn deleted_file_shows_its_keys_as_removed() {
    let before = tree(&[("conf/a.yaml", "k: v\nm: n\n"), ("b.json", "{\"x\": 1}")]);
    let after = tree(&[("b.json", "{\"x\": 2, \"y\": 3}")]);
    let history = vec![commit("abcdef0123", 0, after, Some(before))];
    let report = collect_log("r", &history, None, 5);
    assert_eq!(report.commits.len(), 1);
    let files = &report.commits[0].files;
    assert_eq!(files.len(), 2);
    assert_eq!(files[0].path, "b.json");
    assert_eq!(
        kinds(&files[0]),
        vec![("x".to_string(), KeyChangeKind::Changed), ("y".to_string(), KeyChangeKind::Added)]
    );
    assert_eq!(files[0].keys_changed, 1);
    assert_eq!(files[0].keys_added, 1);
    assert_eq!(files[1].path, "conf/a.yaml");
    assert_eq!(
        kinds(&files[1]),
        vec![("k".to_string(), KeyChangeKind::Removed), ("m".to_string(), KeyChangeKind::Removed)]
    );
    assert_eq!(files[1].keys_removed, 2);
    assert_eq!(report.commits[0].date, "1970-01-01T00:00:00+00:00");
}

#[test]
fn deleted_file_stands_where_its_path_sorts() {
    let before = tree(&[("a.yaml", "k: v\nm: n\n"), ("b.yaml", "x: 1\n")]);
    let after = tree(&[("b.yaml", "x: 2\n")]);
    let history = vec![commit("abcdef0123", 0, after, Some(before))];
    let rules = Some(policy(vec![require("has-name", "name")]));
    let (report, found) = git_log("r", &history, None, 5, &rules).unwrap();
    assert!(found);
    let files = &report.commits[0].files;
    assert_eq!(files.len(), 2);
    assert_eq!(files[0].path, "a.yaml");
    assert_eq!(
        kinds(&files[0]),
        vec![("k".to_string(), KeyChangeKind::Removed), ("m".to_string(), KeyChangeKind::Removed)]
    );
    assert_eq!(files[0].keys_removed, 2);
    assert!(files[0].violations.is_empty());
    assert_eq!(files[1].path, "b.yaml");
    assert_eq!(kinds(&files[1]), vec![("x".to_string(), KeyChangeKind::Changed)]);
    assert_eq!(files[1].violations.len(), 1);
}

#[test]
fn files_of_a_commit_come_in_the_order_of_their_paths() {
    let before = tree(&[
        ("z.toml", "k = 1\n"),
        ("m/gone.json", "{\"x\": 1}"),
        ("c.yaml", "k: 1\n"),
        ("a/gone.yml", "k: 1\n"),
        ("same.json", "{\"x\": 1}"),
    ]);
    let after = tree(&[
        ("z.toml", "k = 2\n"),
        ("new.yaml", "k: 1\n"),
        ("c.yaml", "k: 2\n"),
        ("same.json", "{\"x\": 1}"),
    ]);
    let history = vec![commit("1", 0, after, Some(before))];
    let report = collect_log("r", &history, None, 5);
    let paths: Vec<&str> = report.commits[0].files.iter().map(|f| f.path.as_str()).collect();
    assert_eq!(paths, vec!["a/gone.yml", "c.yaml", "m/gone.json", "new.yaml", "z.toml"]);
    assert_eq!(report.commits[0].files[0].keys_removed, 1);
    assert_eq!(report.commits[0].files[2].keys_removed, 1);
    assert_eq!(report.commits[0].files[3].keys_added, 1);
}

#[test]
fn a_side_that_does_not_parse_counts_as_empty() {
    let before = tree(&[("a.json", "{\"k\": 1}")]);
    let after = tree(&[("a.json", "{ not json")]);
    let history = vec![commit("id", 0, after, Some(before))];
    let report = collect_log("r", &history, None, 5);
    assert_eq!(report.commits.len(), 1);
    assert_eq!(
        kinds(&report.commits[0].files[0]),
        vec![("k".to_string(), KeyChangeKind::Removed)]
    );
}

#[test]
fn commit_without_author_and_message_gets_defaults() {
    let history = vec![CommitRecord {
        id: "0123456789abcdef".to_string(),
        author: None,
        time_seconds: i64::MAX,
        message: None,
        tree: tree(&[("a.toml", "k = 1\n")]),
        parent: None,
    }];
    let report = collect_log("r", &history, Some("a.toml"), 1);
    assert_eq!(report.path_filter.as_deref(), Some("a.toml"));
    assert_eq!(report.commits.len(), 1);
    assert_eq!(report.commits[0].author, "unknown");
    assert_eq!(report.commits[0].message, "");
    assert_eq!(report.commits[0].date, "");
    assert_eq!(report.commits[0].commit_hash, "0123456");
}

#[test]
fn log_judges_the_new_side_by_the_policy() {
    let t1 = tree(&[("a.yaml", "name: a\n")]);
    let t2 = tree(&[("a.yaml", "other: b\n")]);
    let history = vec![commit("2", 2, t2, Some(t1.clone())), commit("1", 1, t1, None)];
    let rules = Some(policy(vec![require("has-name", "name")]));
    let (report, found) = git_log("r", &history, None, 10, &rules).unwrap();
    assert!(found);
    assert_eq!(report.commits.len(), 2);
    assert_eq!(report.commits[0].files[0].violations.len(), 1);
    assert_eq!(report.commits[0].files[0].violations[0].rule_id, "has-name");
    assert_eq!(report.commits[0].files[0].violations[0].file, "a.yaml");
    assert!(report.commits[1].files[0].violations.is_empty());

    let (plain, found) = git_log("r", &history, None, 10, &None).unwrap();
    assert!(!found);
    assert!(plain.commits[0].files[0].violations.is_empty());

    let (old_only, found) = git_log("r", &history[1..].to_vec(), None, 10, &rules).unwrap();
    assert!(!found);
    assert_eq!(old_only.commits.len(), 1);
}

#[test]
fn log_refuses_a_policy_that_cannot_be_used() {
    let history = vec![commit("1", 1, tree(&[("a.yaml", "k: 1\n")]), None)];
    let empty = Some(policy(vec![]));
    assert!(matches!(git_log("r", &history, None, 10, &empty), Err(PolicyError::NoRules)));
    let t = tree(&[]);
    assert!(matches!(
        git_diff("r", "a", "b", &t, &t, None, &empty),
        Err(PolicyError::NoRules)
    ));
}

#[test]
fn ref_diff_of_a_file_that_is_gone() {
    let from = tree(&[("a.yaml", "k: \"1\"\n")]);
    let to = tree(&[]);
    let (report, found) = git_diff("/repo", "main", "feature", &from, &to, None, &None).unwrap();
    assert!(!found);
    assert_eq!(report.repository, "/repo");
    assert_eq!(report.ref_from, "main");
    assert_eq!(report.ref_to, "feature");
    assert_eq!(report.files.len(), 1);
    assert_eq!(report.files[0].path, "a.yaml");
    assert_eq!(kinds(&report.files[0]), vec![("k".to_string(), KeyChangeKind::Removed)]);
    assert_eq!(report.files[0].changes[0].old_value.as_deref(), Some("1"));
    assert_eq!(report.files[0].changes[0].new_value, None);
    assert_eq!(report.total_keys_removed, 1);
    assert_eq!(report.total_files_changed, 1);
    assert_eq!(report.total_keys_added, 0);
    assert_eq!(report.total_keys_changed, 0);
}

#[test]
fn ref_diff_adds_up_the_files_in_key_order() {
    let from = tree(&[
        ("z.json", "{\"a\": 1, \"b\": 2}"),
        ("same.toml", "k = 1\n"),
        ("m/c.yaml", "p: 1\nq: 2\n"),
    ]);
    let to = tree(&[
        ("z.json", "{\"a\": 1, \"b\": 3, \"c\": 4}"),
        ("same.toml", "k = 1\n"),
        ("b.yml", "n: 1\n"),
        ("m/c.yaml", "q: 2\n"),
    ]);
    let (report, _) = git_diff("r", "v1", "v2", &from, &to, None, &None).unwrap();
    let paths: Vec<&str> = report.files.iter().map(|f| f.path.as_str()).collect();
    assert_eq!(paths, vec!["b.yml", "m/c.yaml", "z.json"]);
    assert_eq!(report.total_files_changed, 3);
    assert_eq!(report.total_keys_added, 2);
    assert_eq!(report.total_keys_removed, 1);
    assert_eq!(report.total_keys_changed, 1);

    let (scoped, _) = git_diff("r", "v1", "v2", &from, &to, Some("m"), &None).unwrap();
    assert_eq!(scoped.path_filter.as_deref(), Some("m"));
    assert_eq!(scoped.files.len(), 1);
    assert_eq!(scoped.files[0].path, "m/c.yaml");
    assert_eq!(scoped.total_keys_removed, 1);
}

#[test]
fn ref_diff_judges_the_target_even_where_the_file_is_gone() {
    let from = tree(&[("a.yaml", "name: a\n")]);
    let to = tree(&[]);
    let rules = Some(policy(vec![require("has-name", "name")]));
    let (report, found) = git_diff("r", "a", "b", &from, &to, None, &rules).unwrap();
    assert!(found);
    assert_eq!(report.files[0].violations.len(), 1);
    let (back, found) = git_diff("r", "b", "a", &to, &from, None, &rules).unwrap();
    assert!(!found);
    assert_eq!(kinds(&back.files[0]), vec![("name".to_string(), KeyChangeKind::Added)]);
}

#[test]
fn config_files_are_listed_in_key_order() {
    let t = tree(&[
        ("z.yaml", ""),
        ("conf/b.json", ""),
        ("conf/a.toml", ""),
        ("conf/readme.txt", ""),
        ("conf.yml", ""),
        ("src/main.rs", ""),
        ("z.yaml", "again"),
    ]);
    assert_eq!(
        list_config_files_in_tree(&t, None),
        vec!["conf.yml", "conf/a.toml", "conf/b.json", "z.yaml"]
    );
    assert_eq!(list_config_files_in_tree(&t, Some("conf")), vec!["conf/a.toml", "conf/b.json"]);
    assert_eq!(list_config_files_in_tree(&t, Some("conf/")), vec!["conf/a.toml", "conf/b.json"]);
    assert_eq!(list_config_files_in_tree(&t, Some("z.yaml")), vec!["z.yaml"]);
    assert!(list_config_files_in_tree(&t, Some("src/main.rs")).is_empty());
    assert!(list_config_files_in_tree(&t, Some("missing")).is_empty());
    assert!(list_config_files_in_tree(&t, Some("")).is_empty());
    assert!(list_config_files_in_tree(&t, Some("con")).is_empty());
}

#[test]
fn collecting_keeps_what_was_there() {
    let t = tree(&[("d/x.yaml", ""), ("d/y.txt", ""), ("e/z.json", "")]);
    let mut files = vec!["a.yaml".to_string(), "z.toml".to_string()];
    collect_config_files(&t, "d/", &mut files);
    assert_eq!(files, vec!["a.yaml", "d/x.yaml", "z.toml"]);
    collect_config_files(&t, "", &mut files);
    assert_eq!(files, vec!["a.yaml", "d/x.yaml", "e/z.json", "z.toml"]);
}

#[test]
fn blob_text_is_there_only_for_text() {
    let t = TreeSnapshot {
        entries: vec![
            TreeEntry { path: "text.yaml".to_string(), data: "k: é\n".as_bytes().to_vec() },
            TreeEntry { path: "binary.yaml".to_string(), data: vec![0x6b, 0xff, 0xfe] },
            TreeEntry { path: "text.yaml".to_string(), data: b"second".to_vec() },
        ],
    };
    assert_eq!(get_file_content_at_commit(&t, "text.yaml").as_deref(), Some("k: é\n"));
    assert_eq!(get_file_content_at_commit(&t, "binary.yaml"), None);
    assert_eq!(get_file_content_at_commit(&t, "missing.yaml"), None);
    assert!(tree_has_file(&t, "binary.yaml"));
    assert!(!tree_has_file(&t, "missing.yaml"));
}

#[test]
fn binary_file_counts_as_absent() {
    let before = TreeSnapshot {
        entries: vec![TreeEntry { path: "a.yaml".to_string(), data: vec![0xff, 0x00] }],
    };
    let after = tree(&[("a.yaml", "k: 1\n")]);
    let history = vec![commit("1", 1, after, Some(before))];
    let report = collect_log("r", &history, None, 1);
    assert_eq!(kinds(&report.commits[0].files[0]), vec![("k".to_string(), KeyChangeKind::Added)]);
}

#[test]
fn a_commit_entry_takes_the_date_it_is_given() {
    let record = commit("0123456789", 5, tree(&[]), None);
    let entry = build_commit_entry(&record, Some("then".to_string()), Vec::new());
    assert_eq!(entry.date, "then");
    assert_eq!(entry.commit_hash, "0123456");
    assert_eq!(entry.commit_hash_full, "0123456789");
    assert_eq!(entry.message, "change 0123456789");
    assert!(entry.files.is_empty());
    assert_eq!(build_commit_entry(&record, None, Vec::new()).date, "");
}

#[test]
fn walk_takes_the_first_commits() {
    let ids: Vec<String> = vec!["c".to_string(), "b".to_string(), "a".to_string()];
    assert_eq!(walk_commits(&ids, 2), vec!["c", "b"]);
    assert_eq!(walk_commits(&ids, 3), vec!["c", "b", "a"]);
    assert_eq!(walk_commits(&ids, 7), vec!["c", "b", "a"]);
    assert!(walk_commits(&ids, 0).is_empty());
}

#[test]
fn file_changes_count_each_kind() {
    let change = |key: &str, kind: KeyChangeKind| KeyChange {
        key: key.to_string(),
        kind,
        old_value: None,
        new_value: None,
    };
    let changes = vec![
        change("a", KeyChangeKind::Added),
        change("b", KeyChangeKind::Changed),
        change("c", KeyChangeKind::Added),
        change("d", KeyChangeKind::Removed),
        change("e", KeyChangeKind::Added),
    ];
    let fc = build_file_changes("p.yaml", changes, Vec::new());
    assert_eq!(fc.path, "p.yaml");
    assert_eq!(fc.keys_added, 3);
    assert_eq!(fc.keys_removed, 1);
    assert_eq!(fc.keys_changed, 1);
    assert_eq!(fc.changes.len(), 5);
    assert!(fc.violations.is_empty());
}

#[test]
fn policy_on_a_map_needs_both_policy_and_map() {
    let rules = Some(policy(vec![require("has-name", "name")]));
    let map = FlatConfigMap::new();
    assert_eq!(evaluate_policy_on_map(&rules, Some(&map), "a.yaml").len(), 1);
    assert!(evaluate_policy_on_map(&rules, None, "a.yaml").is_empty());
    assert!(evaluate_policy_on_map(&None, Some(&map), "a.yaml").is_empty());
}
