//! The snapshot of the configuration files under a directory.

use vstd::prelude::*;
use crate::models::Entry;
use crate::models::EntryView;
use crate::models::FileData;
use crate::models::Snapshot;
use crate::models::SnapshotView;
use crate::utils::hash_file;
use crate::utils::is_config;
use crate::utils::is_config_path;
use crate::utils::sha256_hex;

verus! {

/// The entries of the configuration files among the first `n` files,
/// each with the hash of its content, in the order of the files.
pub open spec fn snapshot_entries(files: Seq<FileData>, n: nat) -> Seq<EntryView>
    decreases n,
{
    if n == 0 {
        Seq::empty()
    } else {
        let before = snapshot_entries(files, (n - 1) as nat);
        if is_config_path(files[n - 1].path@) {
            before.push(
                EntryView { path: files[n - 1].path@, hash: sha256_hex(files[n - 1].data@) },
            )
        } else {
            before
        }
    }
}

/// The snapshot of a list of files at a given time.
pub open spec fn snapshot_of(files: Seq<FileData>, created_at: Seq<char>) -> SnapshotView {
    SnapshotView { created_at: created_at, entries: snapshot_entries(files, files.len()) }
}

/// Takes the snapshot of the configuration files among `files`.
pub fn scan(files: &Vec<FileData>, created_at: &str) -> (snapshot: Snapshot)
    ensures
        snapshot@ == snapshot_of(files@, created_at@),
{
    let mut entries: Vec<Entry> = Vec::new();
    let mut i: usize = 0;
    assert(entries.deep_view() =~= Seq::<EntryView>::empty());
    while i < files.len()
        invariant
            i <= files@.len(),
            entries.deep_view() == snapshot_entries(files@, i as nat),
        decreases files@.len() - i,
    {
        let file = &files[i];
        if is_config(file.path.as_str()) {
            let ghost before = entries.deep_view();
            let entry = Entry { path: file.path.clone(), hash: hash_file(file.data.as_slice()) };
            let ghost ev = entry@;
            entries.push(entry);
            assert(entries.deep_view() =~= before.push(ev));
        }
        i += 1;
    }
    Snapshot { created_at: created_at.to_string(), entries }
}

} // verus!
