use configtrace::keys::find_key;
use configtrace::keys::has_key;
use configtrace::keys::insert_key;
use configtrace::keys::union_keys;
use configtrace::text::chars_of;
use configtrace::text::contains_char;
use configtrace::text::contains_text;
use configtrace::text::eq_ignoring_case;
use configtrace::text::extension_of;
use configtrace::text::file_name_of;
use configtrace::text::join;
use configtrace::text::list_contains;
use configtrace::text::str_eq;
use configtrace::text::str_lt;
use configtrace::text::take_chars;
use configtrace::text::trim;
use configtrace::text::usize_to_text;
use configtrace::utils::add_capped;

fn strings(list: &[&str]) -> Vec<String> {
    list.iter().map(|s| s.to_string()).collect()
}

#[test]
fn key_order_is_the_order_of_strings() {
    let samples = ["", "a", "a.b", "a[0]", "ab", "b", "B", "é", "z", "日本", "a\u{10ffff}"];
    for x in samples {
        for y in samples {
            assert_eq!(str_lt(x, y), x < y, "{:?} < {:?}", x, y);
            assert_eq!(str_eq(x, y), x == y, "{:?} == {:?}", x, y);
        }
    }
}

#[test]
fn trim_removes_white_space_at_both_ends() {
    assert_eq!(trim("  a b \n"), "a b");
    assert_eq!(trim("\t\u{a0}x\u{3000}"), "x");
    assert_eq!(trim(" \n\t "), "");
    assert_eq!(trim(""), "");
    assert_eq!(trim("é"), "é");
    for s in ["  fix: é \r\n", "\u{2028}a\u{85}", "a", " \u{1680}b c\u{205f}\u{202f}"] {
        assert_eq!(trim(s), s.trim());
    }
}

#[test]
fn take_chars_counts_characters() {
    assert_eq!(take_chars("0123456789", 7), "0123456");
    assert_eq!(take_chars("012", 7), "012");
    assert_eq!(take_chars("ééééééééé", 7), "ééééééé");
    assert_eq!(take_chars("abc", 0), "");
}

#[test]
fn join_puts_the_separator_between() {
    assert_eq!(join(&strings(&["a", "b", "c"]), ", "), "a, b, c");
    assert_eq!(join(&strings(&["a"]), ", "), "a");
    assert_eq!(join(&strings(&[]), ", "), "");
    assert_eq!(join(&strings(&["", ""]), "-"), "-");
}

#[test]
fn numbers_are_written_in_decimal() {
    assert_eq!(usize_to_text(0), "0");
    assert_eq!(usize_to_text(7), "7");
    assert_eq!(usize_to_text(10), "10");
    assert_eq!(usize_to_text(1234567890), "1234567890");
    assert_eq!(usize_to_text(usize::MAX), usize::MAX.to_string());
}

#[test]
fn substrings_and_characters_are_found() {
    assert!(contains_char("a/b", '/'));
    assert!(!contains_char("ab", '/'));
    assert!(contains_text("a**b", "**"));
    assert!(contains_text("**", "**"));
    assert!(!contains_text("a*b*", "**"));
    assert!(contains_text("abc", ""));
    assert!(contains_text("", ""));
    assert!(!contains_text("", "a"));
    assert!(list_contains(&strings(&["x", "y"]), "y"));
    assert!(!list_contains(&strings(&["x", "y"]), "z"));
    assert_eq!(chars_of("aé"), vec!['a', 'é']);
}

#[test]
fn names_and_extensions_of_paths() {
    assert_eq!(file_name_of("a/b/c.yaml"), "c.yaml");
    assert_eq!(file_name_of("c.yaml"), "c.yaml");
    assert_eq!(file_name_of("a/"), "");
    assert_eq!(extension_of("a/b/c.yaml"), Some("yaml"));
    assert_eq!(extension_of("a.b/c"), None);
    assert_eq!(extension_of("a/.hidden"), None);
    assert_eq!(extension_of("a/.hidden.json"), Some("json"));
    assert_eq!(extension_of("x.tar.gz"), Some("gz"));
    assert_eq!(extension_of("x."), Some(""));
    assert_eq!(extension_of(".."), None);
    assert_eq!(extension_of("a/.."), None);
    assert_eq!(extension_of("..."), Some(""));
}

#[test]
fn names_and_extensions_agree_with_paths_of_files() {
    for p in [
        "a.yaml",
        "dir/a.yaml",
        "dir.d/a",
        "dir/.env",
        "dir/.env.toml",
        "a.b.c",
        "x/y/z.JSON",
        "noext",
        "dir/..",
        "é/ü.yml",
        "a.",
    ] {
        let path = std::path::Path::new(p);
        assert_eq!(extension_of(p), path.extension().and_then(|e| e.to_str()), "{:?}", p);
        if let Some(name) = path.file_name().and_then(|n| n.to_str()) {
            assert_eq!(file_name_of(p), name, "{:?}", p);
        }
    }
}

#[test]
fn case_is_ignored_for_ascii_letters_only() {
    assert!(eq_ignoring_case("YAML", "yaml"));
    assert!(eq_ignoring_case("yaml", "yaml"));
    assert!(!eq_ignoring_case("yaml", "YAML"));
    assert!(!eq_ignoring_case("yam", "yaml"));
    assert!(!eq_ignoring_case("É", "é"));
}

#[test]
fn key_lists_stay_in_order() {
    let mut keys: Vec<String> = Vec::new();
    assert_eq!(insert_key(&mut keys, "m".to_string()), (true, 0));
    assert_eq!(insert_key(&mut keys, "a".to_string()), (true, 0));
    assert_eq!(insert_key(&mut keys, "z".to_string()), (true, 2));
    assert_eq!(insert_key(&mut keys, "m".to_string()), (false, 1));
    assert_eq!(keys, vec!["a", "m", "z"]);
    assert_eq!(find_key(&keys, "m"), (true, 1));
    assert_eq!(find_key(&keys, "b"), (false, 1));
    assert_eq!(find_key(&keys, "zz"), (false, 3));
    assert!(has_key(&keys, "z"));
    assert!(!has_key(&keys, ""));
    let other = strings(&["b", "m", "y"]);
    assert_eq!(union_keys(&keys, &other), vec!["a", "b", "m", "y", "z"]);
    assert_eq!(union_keys(&keys, &Vec::new()), keys);
}

#[test]
fn capped_sum_stops_at_the_greatest_number() {
    assert_eq!(add_capped(2, 3), 5);
    assert_eq!(add_capped(usize::MAX, 0), usize::MAX);
    assert_eq!(add_capped(usize::MAX - 1, 5), usize::MAX);
}
