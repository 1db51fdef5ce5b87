use configtrace::flat::FlatConfigMap;
use configtrace::git::differ::diff_config_maps;
use configtrace::git::models::KeyChange;
use configtrace::git::models::KeyChangeKind;

fn make_map(pairs: &[(&str, &str)]) -> FlatConfigMap {
    let mut map = FlatConfigMap::new();
    for (k, v) in pairs {
        map.insert(k.to_string(), v.to_string());
    }
    map
}

#[test]
fn test_empty_maps() {
    let old = FlatConfigMap::new();
    let new = FlatConfigMap::new();
    assert!(diff_config_maps(&old, &new).is_empty());
}

#[test]
fn test_identical_maps() {
    let map = make_map(&[("a", "1"), ("b", "2")]);
    assert!(diff_config_maps(&map, &map).is_empty());
}

#[test]
fn test_added_keys() {
    let old = FlatConfigMap::new();
    let new = make_map(&[("database.host", "localhost")]);
    let changes = diff_config_maps(&old, &new);
    assert_eq!(changes.len(), 1);
    assert_eq!(changes[0].kind, KeyChangeKind::Added);
    assert_eq!(changes[0].key, "database.host");
    assert_eq!(changes[0].new_value.as_deref(), Some("localhost"));
    assert!(changes[0].old_value.is_none());
}

#[test]
fn test_removed_keys() {
    let old = make_map(&[("debug", "true")]);
    let new = FlatConfigMap::new();
    let changes = diff_config_maps(&old, &new);
    assert_eq!(changes.len(), 1);
    assert_eq!(changes[0].kind, KeyChangeKind::Removed);
    assert_eq!(changes[0].key, "debug");
    assert_eq!(changes[0].old_value.as_deref(), Some("true"));
    assert!(changes[0].new_value.is_none());
}

#[test]
fn test_changed_keys() {
    let old = make_map(&[("database.host", "localhost")]);
    let new = make_map(&[("database.host", "db.prod.internal")]);
    let changes = diff_config_maps(&old, &new);
    assert_eq!(changes.len(), 1);
    assert_eq!(changes[0].kind, KeyChangeKind::Changed);
    assert_eq!(changes[0].old_value.as_deref(), Some("localhost"));
    assert_eq!(changes[0].new_value.as_deref(), Some("db.prod.internal"));
}

#[test]
fn test_mixed_changes() {
    let old = make_map(&[("a", "1"), ("b", "2"), ("c", "3")]);
    let new = make_map(&[("a", "1"), ("b", "changed"), ("d", "4")]);
    let changes = diff_config_maps(&old, &new);

    assert_eq!(changes.len(), 3);

    let changed: Vec<_> = changes
        .iter()
        .filter(|c| c.kind == KeyChangeKind::Changed)
        .collect();
    assert_eq!(changed.len(), 1);
    assert_eq!(changed[0].key, "b");

    let removed: Vec<_> = changes
        .iter()
        .filter(|c| c.kind == KeyChangeKind::Removed)
        .collect();
    assert_eq!(removed.len(), 1);
    assert_eq!(removed[0].key, "c");

    let added: Vec<_> = changes
        .iter()
        .filter(|c| c.kind == KeyChangeKind::Added)
        .collect();
    assert_eq!(added.len(), 1);
    assert_eq!(added[0].key, "d");
}

#[test]
fn test_deterministic_ordering() {
    let old = make_map(&[("z", "1"), ("a", "2")]);
    let new = make_map(&[("z", "changed"), ("a", "changed")]);
    let changes = diff_config_maps(&old, &new);
    assert_eq!(changes[0].key, "a");
    assert_eq!(changes[1].key, "z");
}

fn summary(changes: &[KeyChange]) -> Vec<(String, KeyChangeKind, Option<String>, Option<String>)> {
    changes
        .iter()
        .map(|c| (c.key.clone(), c.kind, c.old_value.clone(), c.new_value.clone()))
        .collect()
}

#[test]
fn diff_lists_every_kind_with_its_values() {
    let old = make_map(&[("keep", "same"), ("gone", "x"), ("turn", "left")]);
    let new = make_map(&[("keep", "same"), ("turn", "right"), ("fresh", "y")]);
    let changes = diff_config_maps(&old, &new);
    assert_eq!(
        summary(&changes),
        vec![
            ("fresh".to_string(), KeyChangeKind::Added, None, Some("y".to_string())),
            ("gone".to_string(), KeyChangeKind::Removed, Some("x".to_string()), None),
            (
                "turn".to_string(),
                KeyChangeKind::Changed,
                Some("left".to_string()),
                Some("right".to_string())
            ),
        ]
    );
}

#[test]
fn diff_of_a_map_with_itself_is_empty() {
    let map = make_map(&[("x.y", "1"), ("x.z[0]", "a"), ("", "root")]);
    assert!(diff_config_maps(&map, &map).is_empty());
}

#[test]
fn diff_backwards_mirrors_diff_forwards() {
    let a = make_map(&[("only.a", "1"), ("both", "old"), ("same", "s")]);
    let b = make_map(&[("only.b", "2"), ("both", "new"), ("same", "s")]);
    let forth = diff_config_maps(&a, &b);
    let back = diff_config_maps(&b, &a);
    assert_eq!(forth.len(), back.len());
    for (f, r) in forth.iter().zip(back.iter()) {
        assert_eq!(f.key, r.key);
        assert_eq!(f.old_value, r.new_value);
        assert_eq!(f.new_value, r.old_value);
        let mirrored = match f.kind {
            KeyChangeKind::Added => KeyChangeKind::Removed,
            KeyChangeKind::Removed => KeyChangeKind::Added,
            KeyChangeKind::Changed => KeyChangeKind::Changed,
        };
        assert_eq!(r.kind, mirrored);
    }
}

#[test]
fn diff_is_sorted_whatever_the_order_of_insertion() {
    let old = make_map(&[("m", "1"), ("b", "1"), ("zz", "1"), ("a.b", "1"), ("a", "1")]);
    let new = FlatConfigMap::new();
    let keys: Vec<String> = diff_config_maps(&old, &new).into_iter().map(|c| c.key).collect();
    assert_eq!(keys, vec!["a", "a.b", "b", "m", "zz"]);
}

#[test]
fn keys_are_ordered_by_their_bytes() {
    let old = FlatConfigMap::new();
    let new = make_map(&[("é", "1"), ("z", "1"), ("Z", "1"), ("a[10]", "1"), ("a[2]", "1")]);
    let keys: Vec<String> = diff_config_maps(&old, &new).into_iter().map(|c| c.key).collect();
    assert_eq!(keys, vec!["Z", "a[10]", "a[2]", "z", "é"]);
}

#[test]
fn insert_replaces_the_value_of_a_key() {
    let mut map = make_map(&[("k", "1")]);
    map.insert("k".to_string(), "2".to_string());
    assert_eq!(map.get("k").map(|s| s.as_str()), Some("2"));
    assert_eq!(map.keys(), vec!["k"]);
    assert!(map.contains_key("k"));
    assert!(!map.contains_key("j"));
    assert!(!map.is_empty());
    assert!(FlatConfigMap::new().is_empty());
}

#[test]
fn keys_under_a_prefix_are_found() {
    let map = make_map(&[("logging.level", "info"), ("app", "x")]);
    assert!(map.has_key_with_prefix("logging."));
    assert!(map.has_key_with_prefix("app"));
    assert!(!map.has_key_with_prefix("app."));
    assert!(!map.has_key_with_prefix("log.level"));
}
