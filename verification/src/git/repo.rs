//! What the auditing reads of a repository: the trees of its commits as
//! lists of files, and the commits themselves as plain records.

use vstd::prelude::*;
use crate::keys::ascending;
use crate::keys::insert_key;
use crate::keys::lemma_ascending_unique;
use crate::text::chars_of;
use crate::text::chars_start_with;
use crate::text::opt_str;
use crate::text::opt_text;
use crate::text::str_eq;
use crate::text::string_views;
use crate::text::text_of_bytes;
use crate::text::utf8_text;
use crate::utils::is_config;
use crate::utils::is_config_path;

verus! {

/// A file of a tree: its path from the root of the repository, with `/`
/// between the directories, and its content.
#[derive(Debug, Clone)]
pub struct TreeEntry {
    pub path: String,
    pub data: Vec<u8>,
}

/// The files of the tree of a commit. Where a path occurs twice, the
/// first entry counts.
#[derive(Debug, Clone)]
pub struct TreeSnapshot {
    pub entries: Vec<TreeEntry>,
}

/// A commit: what it says of itself, its tree, and the tree of its first
/// parent if it has a parent.
#[derive(Debug, Clone)]
pub struct CommitRecord {
    pub id: String,
    pub author: Option<String>,
    pub time_seconds: i64,
    pub message: Option<String>,
    pub tree: TreeSnapshot,
    pub parent: Option<TreeSnapshot>,
}

/// Some entry of the list has this path.
pub open spec fn entries_have(entries: Seq<TreeEntry>, path: Seq<char>) -> bool {
    exists|i: int| 0 <= i < entries.len() && (#[trigger] entries[i]).path@ == path
}

/// The tree has a file at `path`.
pub open spec fn tree_has(tree: TreeSnapshot, path: Seq<char>) -> bool {
    entries_have(tree.entries@, path)
}

/// The content of the first entry with this path.
pub open spec fn blob_at(entries: Seq<TreeEntry>, path: Seq<char>) -> Option<Seq<u8>>
    decreases entries.len(),
{
    if entries.len() == 0 {
        None
    } else if entries[0].path@ == path {
        Some(entries[0].data@)
    } else {
        blob_at(entries.drop_first(), path)
    }
}

/// The text of the file at `path`: none where the tree has no such file,
/// and none where its content is not UTF-8.
pub open spec fn blob_text(tree: TreeSnapshot, path: Seq<char>) -> Option<Seq<char>> {
    match blob_at(tree.entries@, path) {
        Some(data) => text_of_bytes(data),
        None => None,
    }
}

/// A filter as the path of a directory, with `/` at its end.
pub open spec fn dir_prefix(filter: Seq<char>) -> Seq<char> {
    if filter.len() > 0 && filter.last() == '/' {
        filter
    } else {
        filter + "/"@
    }
}

/// Whether a path lies within what a filter names: without a filter
/// every path does; a filter that names a file of the tree admits that
/// file alone; any other filter admits what lies below it as a directory.
pub open spec fn in_scope(tree: TreeSnapshot, filter: Option<Seq<char>>, path: Seq<char>) -> bool {
    match filter {
        None => true,
        Some(f) => if tree_has(tree, f) {
            path == f
        } else {
            dir_prefix(f).is_prefix_of(path)
        },
    }
}

/// The path is that of a configuration file of the tree within the
/// filter.
pub open spec fn listed(tree: TreeSnapshot, filter: Option<Seq<char>>, path: Seq<char>) -> bool {
    tree_has(tree, path) && is_config_path(path) && in_scope(tree, filter, path)
}

/// `paths` lists the configuration files of the tree within the filter,
/// each once, in key order.
pub open spec fn is_config_listing(
    tree: TreeSnapshot,
    filter: Option<Seq<char>>,
    paths: Seq<Seq<char>>,
) -> bool {
    ascending(paths) && forall|p: Seq<char>| paths.contains(p) <==> listed(tree, filter, p)
}

/// The configuration files of the tree within the filter, each once, in
/// key order.
pub open spec fn config_paths(tree: TreeSnapshot, filter: Option<Seq<char>>) -> Seq<Seq<char>> {
    choose|paths: Seq<Seq<char>>| is_config_listing(tree, filter, paths)
}

/// A tree has one listing only.
pub proof fn lemma_config_listing(
    tree: TreeSnapshot,
    filter: Option<Seq<char>>,
    paths: Seq<Seq<char>>,
)
    requires
        is_config_listing(tree, filter, paths),
    ensures
        config_paths(tree, filter) == paths,
{
    lemma_ascending_unique(config_paths(tree, filter), paths);
}

/// Whether the tree has a file at `path`.
pub fn tree_has_file(tree: &TreeSnapshot, path: &str) -> (r: bool)
    ensures
        r == tree_has(*tree, path@),
{
    let mut i: usize = 0;
    while i < tree.entries.len()
        invariant
            i <= tree.entries@.len(),
            forall|j: int| 0 <= j < i ==> (#[trigger] tree.entries@[j]).path@ != path@,
        decreases tree.entries@.len() - i,
    {
        if str_eq(tree.entries[i].path.as_str(), path) {
            return true;
        }
        i += 1;
    }
    false
}

/// The text of the file at `file_path` in the tree of a commit. A file
/// that is not there, or is not text, gives nothing.
pub fn get_file_content_at_commit(tree: &TreeSnapshot, file_path: &str) -> (r: Option<String>)
    ensures
        opt_text(r) == blob_text(*tree, file_path@),
{
    let mut i: usize = 0;
    assert(tree.entries@.skip(0) =~= tree.entries@);
    while i < tree.entries.len()
        invariant
            i <= tree.entries@.len(),
            blob_at(tree.entries@, file_path@) == blob_at(
                tree.entries@.skip(i as int),
                file_path@,
            ),
        decreases tree.entries@.len() - i,
    {
        let entry = &tree.entries[i];
        assert(tree.entries@.skip(i as int)[0] == *entry);
        if str_eq(entry.path.as_str(), file_path) {
            return match utf8_text(entry.data.as_slice()) {
                Some(text) => Some(text.to_string()),
                None => None,
            };
        }
        assert(tree.entries@.skip(i as int).drop_first() =~= tree.entries@.skip(i + 1));
        i += 1;
    }
    None
}

/// The path is that of a configuration file among `entries` and begins
/// with `dir`.
pub open spec fn wanted(entries: Seq<TreeEntry>, dir: Seq<char>, path: Seq<char>) -> bool {
    entries_have(entries, path) && is_config_path(path) && dir.is_prefix_of(path)
}

/// Adds to `files` the configuration files of the tree whose path begins
/// with `dir`; the empty `dir` is the root. `files` stays in key order.
pub fn collect_config_files(tree: &TreeSnapshot, dir: &str, files: &mut Vec<String>)
    requires
        ascending(string_views(old(files)@)),
    ensures
        ascending(string_views(final(files)@)),
        forall|p: Seq<char>|
            #[trigger] string_views(final(files)@).contains(p) <==> (string_views(
                old(files)@,
            ).contains(p) || wanted(tree.entries@, dir@, p)),
{
    let ghost start = string_views(files@);
    let prefix = chars_of(dir);
    let mut i: usize = 0;
    assert forall|p: Seq<char>| !wanted(tree.entries@.take(0), dir@, p) by {}
    while i < tree.entries.len()
        invariant
            i <= tree.entries@.len(),
            prefix@ == dir@,
            ascending(string_views(files@)),
            forall|p: Seq<char>|
                #[trigger] string_views(files@).contains(p) <==> (start.contains(p) || wanted(
                    tree.entries@.take(i as int),
                    dir@,
                    p,
                )),
        decreases tree.entries@.len() - i,
    {
        let entry = &tree.entries[i];
        let ghost before = string_views(files@);
        let ghost seen = tree.entries@.take(i as int);
        let ghost next = tree.entries@.take(i + 1);
        let path = chars_of(entry.path.as_str());
        let keep = chars_start_with(&path, &prefix) && is_config(entry.path.as_str());
        if keep {
            let _ = insert_key(files, entry.path.clone());
        }
        proof {
            let after = string_views(files@);
            assert(next[i as int] == *entry);
            assert forall|p: Seq<char>| #[trigger] after.contains(p) <==> (start.contains(p)
                || wanted(next, dir@, p)) by {
                assert(before.contains(p) <==> (start.contains(p) || wanted(seen, dir@, p)));
                assert(after.contains(p) <==> (before.contains(p) || (keep && p == entry.path@)));
                if entries_have(seen, p) {
                    let j = choose|j: int| 0 <= j < seen.len() && (#[trigger] seen[j]).path@ == p;
                    assert(next[j].path@ == p);
                }
                if entries_have(next, p) {
                    let j = choose|j: int| 0 <= j < next.len() && (#[trigger] next[j]).path@ == p;
                    if j < i {
                        assert(seen[j].path@ == p);
                    }
                }
                if p == entry.path@ {
                    assert(next[i as int].path@ == p);
                }
            }
        }
        i += 1;
    }
    assert(tree.entries@.take(tree.entries@.len() as int) =~= tree.entries@);
}

/// Whether `filter` ends with `/`.
fn ends_with_slash(filter: &str) -> (r: bool)
    ensures
        r == (filter@.len() > 0 && filter@.last() == '/'),
{
    let v = chars_of(filter);
    v.len() > 0 && v[v.len() - 1] == '/'
}

/// The configuration files of a tree, each once, in key order; with a
/// filter, those within it.
pub fn list_config_files_in_tree(tree: &TreeSnapshot, path_filter: Option<&str>) -> (files: Vec<
    String,
>)
    ensures
        is_config_listing(*tree, opt_str(path_filter), string_views(files@)),
        string_views(files@) == config_paths(*tree, opt_str(path_filter)),
{
    let mut files: Vec<String> = Vec::new();
    let ghost none = string_views(files@);
    let ghost scope = opt_str(path_filter);
    assert(none.len() == 0);
    match path_filter {
        Some(filter) => {
            if tree_has_file(tree, filter) {
                if is_config(filter) {
                    let _ = insert_key(&mut files, filter.to_string());
                }
                proof {
                    let paths = string_views(files@);
                    assert forall|p: Seq<char>| paths.contains(p) <==> listed(*tree, scope, p) by {
                        assert(!none.contains(p));
                    }
                }
            } else if ends_with_slash(filter) {
                collect_config_files(tree, filter, &mut files);
                proof {
                    let paths = string_views(files@);
                    assert forall|p: Seq<char>| paths.contains(p) <==> listed(*tree, scope, p) by {
                        assert(!none.contains(p));
                        assert(paths.contains(p) <==> wanted(tree.entries@, filter@, p));
                    }
                }
            } else {
                let mut dir = filter.to_string();
                dir.append("/");
                collect_config_files(tree, dir.as_str(), &mut files);
                proof {
                    let paths = string_views(files@);
                    assert forall|p: Seq<char>| paths.contains(p) <==> listed(*tree, scope, p) by {
                        assert(!none.contains(p));
                        assert(paths.contains(p) <==> wanted(tree.entries@, dir@, p));
                    }
                }
            }
        },
        None => {
            collect_config_files(tree, "", &mut files);
            proof {
                reveal_strlit("");
                let paths = string_views(files@);
                assert forall|p: Seq<char>| paths.contains(p) <==> listed(*tree, scope, p) by {
                    assert(!none.contains(p));
                    assert(paths.contains(p) <==> wanted(tree.entries@, ""@, p));
                    assert(""@ =~= p.subrange(0, 0));
                }
            }
        },
    }
    proof {
        lemma_config_listing(*tree, scope, string_views(files@));
    }
    files
}

/// The first `limit` commits of a walk, or all where the walk has fewer.
pub fn walk_commits(ids: &Vec<String>, limit: usize) -> (r: Vec<String>)
    ensures
        string_views(r@) == string_views(ids@).take(
            if limit <= ids@.len() {
                limit as int
            } else {
                ids@.len() as int
            },
        ),
{
    let mut r: Vec<String> = Vec::new();
    let mut i: usize = 0;
    while i < ids.len() && i < limit
        invariant
            i <= ids@.len(),
            i <= limit,
            r@.len() == i,
            forall|j: int| 0 <= j < i ==> (#[trigger] r@[j])@ == ids@[j]@,
        decreases ids@.len() - i,
    {
        r.push(ids[i].clone());
        i += 1;
    }
    assert(string_views(r@) =~= string_views(ids@).take(i as int));
    r
}

} // verus!
