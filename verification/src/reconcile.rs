//! Three-way classification of repository names: cloned, not cloned, and
//! local only.

use crate::catalog::Repository;
use crate::status::GitStatus;
use vstd::prelude::*;

verus! {

/// The aggregate result of a reconciliation.
#[derive(Debug)]
pub struct ReconciliationReport {
    /// Names present both remotely and locally, in remote catalog order.
    pub cloned: Vec<String>,
    /// Names present remotely but absent locally, in remote catalog order.
    pub not_cloned: Vec<String>,
    /// Names present locally but absent remotely, in scan order.
    pub local_only: Vec<String>,
    /// One drift status per `cloned` entry, attached after inspection.
    pub statuses: Vec<GitStatus>,
}

/// The names of a remote catalog, in catalog order.
pub open spec fn repo_names(remote: Seq<Repository>) -> Seq<Seq<char>> {
    remote.map_values(|r: Repository| r.name@)
}

/// Membership in a name list, as a predicate over one name.
pub open spec fn in_names(names: Seq<Seq<char>>) -> spec_fn(Seq<char>) -> bool {
    |n: Seq<char>| names.contains(n)
}

/// Absence from a name list, as a predicate over one name.
pub open spec fn not_in_names(names: Seq<Seq<char>>) -> spec_fn(Seq<char>) -> bool {
    |n: Seq<char>| !names.contains(n)
}

/// Remote names that are present locally, in remote order.
pub open spec fn cloned_names(remote: Seq<Seq<char>>, local: Seq<Seq<char>>) -> Seq<Seq<char>> {
    remote.filter(in_names(local))
}

/// Remote names that are absent locally, in remote order.
pub open spec fn not_cloned_names(remote: Seq<Seq<char>>, local: Seq<Seq<char>>) -> Seq<
    Seq<char>,
> {
    remote.filter(not_in_names(local))
}

/// Local names that the remote catalog does not have, in scan order.
pub open spec fn local_only_names(remote: Seq<Seq<char>>, local: Seq<Seq<char>>) -> Seq<
    Seq<char>,
> {
    local.filter(not_in_names(remote))
}

/// What `reconcile` promises of its report: each classification holds exactly
/// the names the specification assigns to it, in the stated order, and no
/// status has been attached yet.
pub open spec fn report_matches(
    remote: Seq<Seq<char>>,
    local: Seq<Seq<char>>,
    report: ReconciliationReport,
) -> bool {
    &&& report.cloned.deep_view() == cloned_names(remote, local)
    &&& report.not_cloned.deep_view() == not_cloned_names(remote, local)
    &&& report.local_only.deep_view() == local_only_names(remote, local)
    &&& report.statuses@ == Seq::<GitStatus>::empty()
}

/// Whether one of `names` views to exactly `target`.
fn contains_string(names: &Vec<String>, target: &String) -> (r: bool)
    ensures
        r == names.deep_view().contains(target@),
{
    let ghost dv = names.deep_view();
    let n = names.len();
    let mut i: usize = 0;
    while i < n
        invariant
            n == names@.len(),
            dv == names.deep_view(),
            0 <= i <= n,
            forall|j: int| 0 <= j < i ==> dv[j] != target@,
        decreases n - i,
    {
        if names[i] == *target {
            assert(dv[i as int] == target@);
            return true;
        }
        i = i + 1;
    }
    assert(forall|j: int| 0 <= j < dv.len() ==> dv[j] != target@);
    false
}

/// Whether the catalog holds a repository of exactly this name.
fn catalog_contains_name(remote: &Vec<Repository>, target: &String) -> (r: bool)
    ensures
        r == repo_names(remote@).contains(target@),
{
    let ghost rn = repo_names(remote@);
    let n = remote.len();
    let mut i: usize = 0;
    while i < n
        invariant
            n == remote@.len(),
            rn == repo_names(remote@),
            0 <= i <= n,
            forall|j: int| 0 <= j < i ==> rn[j] != target@,
        decreases n - i,
    {
        if remote[i].name == *target {
            assert(rn[i as int] == target@);
            return true;
        }
        i = i + 1;
    }
    assert(forall|j: int| 0 <= j < rn.len() ==> rn[j] != target@);
    false
}

/// Classifies every repository name. A single pass over the remote catalog
/// routes each name into `cloned` when it is locally present and into
/// `not_cloned` otherwise, preserving catalog order in both; a pass over the
/// local names collects into `local_only`, in scan order, those the catalog
/// does not have. The engine performs no I/O; statuses are attached
/// separately.
pub fn reconcile(remote: &Vec<Repository>, local_names: &Vec<String>) -> (r: ReconciliationReport)
    ensures
        report_matches(repo_names(remote@), local_names.deep_view(), r),
{
    let ghost rn = repo_names(remote@);
    let ghost ldv = local_names.deep_view();
    let mut cloned: Vec<String> = Vec::new();
    let mut not_cloned: Vec<String> = Vec::new();
    let mut local_only: Vec<String> = Vec::new();

    let n = remote.len();
    let mut i: usize = 0;
    while i < n
        invariant
            n == remote@.len(),
            rn == repo_names(remote@),
            ldv == local_names.deep_view(),
            0 <= i <= n,
            cloned.deep_view() == cloned_names(rn.take(i as int), ldv),
            not_cloned.deep_view() == not_cloned_names(rn.take(i as int), ldv),
        decreases n - i,
    {
        let ghost pre_c = cloned.deep_view();
        let ghost pre_n = not_cloned.deep_view();
        let name = &remote[i].name;
        let present = contains_string(local_names, name);
        if present {
            cloned.push(name.clone());
        } else {
            not_cloned.push(name.clone());
        }
        proof {
            broadcast use Seq::lemma_filter_push;

            let prefix = rn.take(i as int);
            assert(rn.take(i + 1) =~= prefix.push(rn[i as int]));
            if present {
                assert(cloned.deep_view() =~= pre_c.push(name@));
                assert(cloned_names(prefix.push(rn[i as int]), ldv) =~= cloned_names(
                    prefix,
                    ldv,
                ).push(rn[i as int]));
            } else {
                assert(not_cloned.deep_view() =~= pre_n.push(name@));
                assert(not_cloned_names(prefix.push(rn[i as int]), ldv) =~= not_cloned_names(
                    prefix,
                    ldv,
                ).push(rn[i as int]));
            }
        }
        i = i + 1;
    }
    proof {
        assert(rn.take(n as int) =~= rn);
    }

    let m = local_names.len();
    let mut k: usize = 0;
    while k < m
        invariant
            m == local_names@.len(),
            rn == repo_names(remote@),
            ldv == local_names.deep_view(),
            0 <= k <= m,
            local_only.deep_view() == local_only_names(rn, ldv.take(k as int)),
        decreases m - k,
    {
        let ghost pre_l = local_only.deep_view();
        let name = &local_names[k];
        let in_remote = catalog_contains_name(remote, name);
        if !in_remote {
            local_only.push(name.clone());
        }
        proof {
            broadcast use Seq::lemma_filter_push;

            let prefix = ldv.take(k as int);
            assert(ldv.take(k + 1) =~= prefix.push(ldv[k as int]));
            if !in_remote {
                assert(local_only.deep_view() =~= pre_l.push(name@));
                assert(local_only_names(rn, prefix.push(ldv[k as int])) =~= local_only_names(
                    rn,
                    prefix,
                ).push(ldv[k as int]));
            } else {
                assert(local_only_names(rn, prefix.push(ldv[k as int])) =~= local_only_names(
                    rn,
                    prefix,
                ));
            }
        }
        k = k + 1;
    }
    proof {
        assert(ldv.take(m as int) =~= ldv);
    }

    ReconciliationReport { cloned, not_cloned, local_only, statuses: Vec::new() }
}

/// Attaches the drift statuses gathered for the cloned repositories, one per
/// `cloned` entry, in the same order; the classification is left untouched.
pub fn attach_statuses(report: &mut ReconciliationReport, statuses: Vec<GitStatus>)
    requires
        old(report).statuses@.len() == 0,
        statuses@.len() == old(report).cloned@.len(),
    ensures
        final(report).statuses == statuses,
        final(report).cloned == old(report).cloned,
        final(report).not_cloned == old(report).not_cloned,
        final(report).local_only == old(report).local_only,
{
    report.statuses = statuses;
}

/// Law: reconciliation partitions the remote name set. Every remote name
/// lands in exactly one of `cloned` and `not_cloned`: together they hold
/// precisely the remote names, and no name is in both — for every input.
pub proof fn lemma_reconcile_partition(remote: Seq<Seq<char>>, local: Seq<Seq<char>>)
    ensures
        cloned_names(remote, local).to_set().union(not_cloned_names(remote, local).to_set())
            == remote.to_set(),
        cloned_names(remote, local).to_set().intersect(not_cloned_names(remote, local).to_set())
            == Set::<Seq<char>>::empty(),
{
    let c = cloned_names(remote, local);
    let nc = not_cloned_names(remote, local);
    assert forall|x: Seq<char>| c.contains(x) || nc.contains(x) implies remote.contains(x) by {
        if c.contains(x) {
            remote.lemma_filter_contains_rev(in_names(local), x);
        } else {
            remote.lemma_filter_contains_rev(not_in_names(local), x);
        }
    }
    assert forall|x: Seq<char>| remote.contains(x) implies c.contains(x) || nc.contains(x) by {
        let i = choose|i: int| 0 <= i < remote.len() && remote[i] == x;
        if local.contains(x) {
            remote.lemma_filter_contains(in_names(local), i);
        } else {
            remote.lemma_filter_contains(not_in_names(local), i);
        }
    }
    assert forall|x: Seq<char>| !(c.contains(x) && nc.contains(x)) by {
        if c.contains(x) && nc.contains(x) {
            let i = choose|i: int| 0 <= i < c.len() && c[i] == x;
            remote.lemma_filter_pred(in_names(local), i);
            let j = choose|j: int| 0 <= j < nc.len() && nc[j] == x;
            remote.lemma_filter_pred(not_in_names(local), j);
        }
    }
    assert(c.to_set().union(nc.to_set()) =~= remote.to_set());
    assert(c.to_set().intersect(nc.to_set()) =~= Set::<Seq<char>>::empty());
}

/// Law: the local-only classification is exactly the set difference of the
/// local names and the remote names, whatever order either input comes in.
pub proof fn lemma_local_only_exact(remote: Seq<Seq<char>>, local: Seq<Seq<char>>)
    ensures
        local_only_names(remote, local).to_set() == local.to_set().difference(remote.to_set()),
{
    let lo = local_only_names(remote, local);
    assert forall|x: Seq<char>| lo.contains(x) implies local.contains(x) && !remote.contains(
        x,
    ) by {
        local.lemma_filter_contains_rev(not_in_names(remote), x);
        let i = choose|i: int| 0 <= i < lo.len() && lo[i] == x;
        local.lemma_filter_pred(not_in_names(remote), i);
    }
    assert forall|x: Seq<char>| local.contains(x) && !remote.contains(x) implies lo.contains(
        x,
    ) by {
        let i = choose|i: int| 0 <= i < local.len() && local[i] == x;
        local.lemma_filter_contains(not_in_names(remote), i);
    }
    assert(lo.to_set() =~= local.to_set().difference(remote.to_set()));
}

/// Law: reconciliation is deterministic, so running it twice on identical
/// inputs yields identical reports — its contract pins every field down.
pub proof fn lemma_reconcile_deterministic(
    remote: Seq<Seq<char>>,
    local: Seq<Seq<char>>,
    a: ReconciliationReport,
    b: ReconciliationReport,
)
    requires
        report_matches(remote, local, a),
        report_matches(remote, local, b),
    ensures
        a.cloned.deep_view() == b.cloned.deep_view(),
        a.not_cloned.deep_view() == b.not_cloned.deep_view(),
        a.local_only.deep_view() == b.local_only.deep_view(),
        a.statuses@ == b.statuses@,
{
}

} // verus!
