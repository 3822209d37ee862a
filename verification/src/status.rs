//! Drift status of one local working copy.
//!
//! The version-control probes (opening the repository, resolving the head,
//! walking the working tree, comparing against the upstream reference) are
//! made by the caller; this module fixes the policy that turns what was
//! observed into a `GitStatus`, including every fallback.

use vstd::prelude::*;
use vstd::string::StringExecFns;

verus! {

/// Drift snapshot of one local working copy.
#[derive(Debug, Clone, PartialEq, Eq)]
pub struct GitStatus {
    /// Whether the working tree holds any change, untracked files included.
    pub has_changes: bool,
    /// Commits on the current branch that the upstream does not have.
    pub ahead: usize,
    /// Commits on the upstream that the current branch does not have.
    pub behind: usize,
    /// Short name of the current branch, `"unknown"` when undeterminable.
    pub branch: String,
}

/// What a successful probe of a local repository observed.
pub struct RepoObservation {
    /// Short name of the head's branch; `None` when the head is detached or
    /// could not be resolved.
    pub branch: Option<String>,
    /// Number of working-tree status entries, untracked files included.
    pub status_entries: usize,
    /// Ahead and behind commit counts against `refs/remotes/origin/<branch>`;
    /// `None` when that reference is absent or the comparison failed.
    pub upstream: Option<(usize, usize)>,
}

/// Holds exactly when `s` is the status every fault degrades to: a clean
/// tree, zero ahead and behind counts, and an `"unknown"` branch.
pub open spec fn is_default_status(s: GitStatus) -> bool {
    &&& s.has_changes == false
    &&& s.ahead == 0
    &&& s.behind == 0
    &&& s.branch@ == "unknown"@
}

/// The status reported when a repository could not be inspected at all.
pub fn default_status() -> (r: GitStatus)
    ensures
        is_default_status(r),
{
    GitStatus { has_changes: false, ahead: 0, behind: 0, branch: String::from_str("unknown") }
}

/// Assembles the drift status of one working copy from what the probe
/// observed. A repository that could not be inspected (`obs` is `None`)
/// yields exactly the default status; otherwise the tree counts as changed
/// iff any status entry was seen, an unresolvable branch falls back to
/// `"unknown"`, and a missing upstream reference yields zero ahead and
/// behind counts — a valid state, not an error.
pub fn status_from_observation(obs: Option<RepoObservation>) -> (r: GitStatus)
    ensures
        obs is None ==> is_default_status(r),
        obs matches Some(o) ==> {
            &&& r.has_changes == (o.status_entries != 0)
            &&& (o.branch matches Some(b) ==> r.branch@ == b@)
            &&& (o.branch is None ==> r.branch@ == "unknown"@)
            &&& (o.upstream matches Some((a, b)) ==> r.ahead == a && r.behind == b)
            &&& (o.upstream is None ==> r.ahead == 0 && r.behind == 0)
        },
{
    match obs {
        None => default_status(),
        Some(o) => {
            let branch = match o.branch {
                Some(b) => b,
                None => String::from_str("unknown"),
            };
            let (ahead, behind) = match o.upstream {
                Some(counts) => counts,
                None => (0, 0),
            };
            GitStatus { has_changes: o.status_entries != 0, ahead, behind, branch }
        },
    }
}

/// Name of the upstream tracking reference that the ahead/behind comparison
/// is made against.
pub fn upstream_ref_name(branch: &str) -> (r: String)
    ensures
        r@ == "refs/remotes/origin/"@ + branch@,
{
    let mut name = String::from_str("refs/remotes/origin/");
    name.append(branch);
    name
}

} // verus!
