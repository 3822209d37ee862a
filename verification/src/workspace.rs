//! Local workspace scan: which repository names are present under the
//! workspace root.
//!
//! The directory is read by the caller; this module fixes the selection: only
//! direct child entries that are directories count, entries whose metadata
//! could not be read are silently skipped, and a workspace root that does not
//! exist yet yields the empty set rather than an error.

use vstd::prelude::*;

verus! {

/// One direct child of the workspace root, as far as it could be read.
pub struct WorkspaceEntry {
    pub name: String,
    pub is_dir: bool,
}

/// Whether a scanned entry contributes a repository name: it must have been
/// enumerable at all, and be a directory.
pub open spec fn is_listed_dir(e: Option<WorkspaceEntry>) -> bool {
    e matches Some(w) && w.is_dir
}

/// The name a listed entry contributes.
pub open spec fn listed_name(e: Option<WorkspaceEntry>) -> Seq<char> {
    match e {
        Some(w) => w.name@,
        None => Seq::empty(),
    }
}

/// The repository names a scan yields: the names of the directory entries, in
/// scan order, with files and unreadable entries left out.
pub open spec fn directory_names(entries: Seq<Option<WorkspaceEntry>>) -> Seq<Seq<char>> {
    entries.filter(|e: Option<WorkspaceEntry>| is_listed_dir(e)).map_values(
        |e: Option<WorkspaceEntry>| listed_name(e),
    )
}

/// Names of the locally present repositories, in scan order. `entries` holds
/// one element per direct child of the workspace root, `None` for a child
/// whose metadata could not be read (such an entry is skipped, it does not
/// abort the scan). A workspace root that does not exist on disk has no
/// entries and yields the empty set — a workspace not created yet is a normal
/// precondition, not a fault.
pub fn list_local_repository_names(root_exists: bool, entries: Vec<Option<WorkspaceEntry>>) -> (r:
    Vec<String>)
    ensures
        !root_exists ==> r.deep_view() == Seq::<Seq<char>>::empty(),
        root_exists ==> r.deep_view() == directory_names(entries@),
{
    let mut names: Vec<String> = Vec::new();
    if !root_exists {
        return names;
    }
    let ghost all: Seq<Option<WorkspaceEntry>> = entries@;
    let n = entries.len();
    let mut i: usize = 0;
    while i < n
        invariant
            n == all.len(),
            entries@ == all,
            0 <= i <= n,
            names.deep_view() == directory_names(all.take(i as int)),
        decreases n - i,
    {
        let ghost pre = names.deep_view();
        let ghost e = all[i as int];
        match &entries[i] {
            Some(w) => {
                if w.is_dir {
                    names.push(w.name.clone());
                }
            },
            None => {},
        }
        proof {
            broadcast use Seq::lemma_filter_push;

            let prefix = all.take(i as int);
            assert(all.take(i + 1) =~= prefix.push(e));
            if is_listed_dir(e) {
                assert(names.deep_view() =~= pre.push(listed_name(e)));
                assert(directory_names(prefix.push(e)) =~= directory_names(prefix).push(
                    listed_name(e),
                ));
            } else {
                assert(directory_names(prefix.push(e)) =~= directory_names(prefix));
            }
        }
        i = i + 1;
    }
    proof {
        assert(all.take(n as int) =~= all);
    }
    names
}

} // verus!
