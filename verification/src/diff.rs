//! The difference of two snapshots.

use vstd::prelude::*;
use crate::flat::insert_all;
use crate::flat::FlatConfigMap;
use crate::flat::Pair;
use crate::git::differ::diff_config_maps;
use crate::git::differ::diff_of;
use crate::git::differ::lemma_diff_of;
use crate::git::models::KeyChange;
use crate::git::models::KeyChangeKind;
use crate::git::models::KeyChangeView;
use crate::models::Entry;
use crate::models::EntryView;
use crate::models::Snapshot;
use crate::models::SnapshotView;
use crate::text::string_views;

verus! {

/// The entries of a snapshot as pairs of path and hash.
pub open spec fn entry_pairs(entries: Seq<EntryView>) -> Seq<Pair> {
    Seq::new(entries.len(), |i: int| (entries[i].path, entries[i].hash))
}

/// The hash of each path of a snapshot; where a path occurs twice, the
/// later entry counts.
pub open spec fn entries_map(entries: Seq<EntryView>) -> Map<Seq<char>, Seq<char>> {
    insert_all(Map::empty(), entry_pairs(entries))
}

/// The line that tells of a change.
pub open spec fn change_line(c: KeyChangeView) -> Seq<char> {
    match c.kind {
        KeyChangeKind::Added => "ADDED   "@ + c.key,
        KeyChangeKind::Changed => "CHANGED "@ + c.key,
        KeyChangeKind::Removed => "REMOVED "@ + c.key,
    }
}

/// The lines of those among the first `n` changes that are removals, or
/// of those that are not.
pub open spec fn lines_where(changes: Seq<KeyChangeView>, removals: bool, n: nat) -> Seq<
    Seq<char>,
>
    decreases n,
{
    if n == 0 {
        Seq::empty()
    } else {
        let before = lines_where(changes, removals, (n - 1) as nat);
        if (changes[n - 1].kind == KeyChangeKind::Removed) == removals {
            before.push(change_line(changes[n - 1]))
        } else {
            before
        }
    }
}

/// The lines that tell how the second snapshot differs from the first:
/// the files that were added or changed, in the order of their paths,
/// then the files that were removed, in the order of their paths.
pub open spec fn diff_lines(old: SnapshotView, new: SnapshotView) -> Seq<Seq<char>> {
    let changes = diff_of(entries_map(old.entries), entries_map(new.entries));
    lines_where(changes, false, changes.len()) + lines_where(changes, true, changes.len())
}

fn map_of_entries(entries: &Vec<Entry>) -> (m: FlatConfigMap)
    ensures
        m@ == entries_map(entries.deep_view()),
{
    let ghost pairs = entry_pairs(entries.deep_view());
    let mut m = FlatConfigMap::new();
    let mut i: usize = 0;
    assert(pairs.take(0) =~= Seq::<Pair>::empty());
    while i < entries.len()
        invariant
            i <= entries@.len(),
            pairs == entry_pairs(entries.deep_view()),
            pairs.len() == entries@.len(),
            m@ == insert_all(Map::empty(), pairs.take(i as int)),
        decreases entries@.len() - i,
    {
        assert(pairs.take(i + 1).drop_last() =~= pairs.take(i as int));
        assert(pairs.take(i + 1).last() == (entries@[i as int].path@, entries@[i as int].hash@));
        m.insert(entries[i].path.clone(), entries[i].hash.clone());
        i += 1;
    }
    assert(pairs.take(entries@.len() as int) =~= pairs);
    m
}

fn line_of(change: &KeyChange) -> (line: String)
    ensures
        line@ == change_line(change@),
{
    let mut line = match change.kind {
        KeyChangeKind::Added => "ADDED   ".to_string(),
        KeyChangeKind::Changed => "CHANGED ".to_string(),
        KeyChangeKind::Removed => "REMOVED ".to_string(),
    };
    line.append(change.key.as_str());
    line
}

/// Compares two snapshots file by file.
pub fn diff(old: &Snapshot, new: &Snapshot) -> (lines: Vec<String>)
    ensures
        string_views(lines@) == diff_lines(old@, new@),
{
    let map_old = map_of_entries(&old.entries);
    let map_new = map_of_entries(&new.entries);
    let changes = diff_config_maps(&map_old, &map_new);
    let ghost all = changes.deep_view();
    proof {
        lemma_diff_of(map_old@, map_new@, all);
    }
    let mut lines: Vec<String> = Vec::new();
    let mut i: usize = 0;
    assert(string_views(lines@) =~= Seq::<Seq<char>>::empty());
    while i < changes.len()
        invariant
            i <= changes@.len(),
            all == changes.deep_view(),
            string_views(lines@) == lines_where(all, false, i as nat),
        decreases changes@.len() - i,
    {
        let ghost before = string_views(lines@);
        assert(all[i as int] == changes@[i as int]@);
        if !(changes[i].kind == KeyChangeKind::Removed) {
            let line = line_of(&changes[i]);
            let ghost lv = line@;
            lines.push(line);
            assert(string_views(lines@) =~= before.push(lv));
        }
        i += 1;
    }
    let ghost first = string_views(lines@);
    let mut j: usize = 0;
    assert(first + Seq::<Seq<char>>::empty() =~= first);
    while j < changes.len()
        invariant
            j <= changes@.len(),
            all == changes.deep_view(),
            string_views(lines@) == first + lines_where(all, true, j as nat),
        decreases changes@.len() - j,
    {
        let ghost before = string_views(lines@);
        let ghost found = lines_where(all, true, j as nat);
        assert(all[j as int] == changes@[j as int]@);
        if changes[j].kind == KeyChangeKind::Removed {
            let line = line_of(&changes[j]);
            let ghost lv = line@;
            lines.push(line);
            assert(string_views(lines@) =~= before.push(lv));
            assert(first + found.push(lv) =~= before.push(lv));
        }
        j += 1;
    }
    lines
}

} // verus!
