use repoman::status::{default_status, status_from_observation, upstream_ref_name, GitStatus, RepoObservation};
use repoman::workspace::{list_local_repository_names, WorkspaceEntry};

#[test]
fn unreadable_repository_yields_exactly_the_default_status() {
    let status = status_from_observation(None);
    let expected = GitStatus {
        has_changes: false,
        ahead: 0,
        behind: 0,
        branch: "unknown".to_string(),
    };
    assert_eq!(status, expected);
    assert_eq!(status, default_status());
}

#[test]
fn missing_upstream_means_zero_ahead_and_behind() {
    let status = status_from_observation(Some(RepoObservation {
        branch: Some("main".to_string()),
        status_entries: 0,
        upstream: None,
    }));
    assert_eq!(status.ahead, 0);
    assert_eq!(status.behind, 0);
    assert_eq!(status.branch, "main");
    assert!(!status.has_changes);
}

#[test]
fn any_status_entry_counts_as_uncommitted_changes() {
    let status = status_from_observation(Some(RepoObservation {
        branch: Some("main".to_string()),
        status_entries: 1,
        upstream: Some((0, 0)),
    }));
    assert!(status.has_changes);

    let clean = status_from_observation(Some(RepoObservation {
        branch: Some("main".to_string()),
        status_entries: 0,
        upstream: Some((0, 0)),
    }));
    assert!(!clean.has_changes);
}

#[test]
fn ahead_behind_counts_are_taken_from_the_comparison() {
    let status = status_from_observation(Some(RepoObservation {
        branch: Some("dev".to_string()),
        status_entries: 0,
        upstream: Some((3, 5)),
    }));
    assert_eq!(status.ahead, 3);
    assert_eq!(status.behind, 5);
}

#[test]
fn headless_repository_reports_unknown_branch() {
    let status = status_from_observation(Some(RepoObservation {
        branch: None,
        status_entries: 2,
        upstream: None,
    }));
    assert_eq!(status.branch, "unknown");
    assert!(status.has_changes);
}

#[test]
fn upstream_reference_name_is_under_remotes_origin() {
    assert_eq!(upstream_ref_name("main"), "refs/remotes/origin/main");
    assert_eq!(upstream_ref_name("feature/x"), "refs/remotes/origin/feature/x");
}

#[test]
fn missing_workspace_root_yields_the_empty_set() {
    let entries = vec![Some(WorkspaceEntry { name: "ignored".to_string(), is_dir: true })];
    let names = list_local_repository_names(false, entries);
    assert!(names.is_empty());
}

#[test]
fn only_directories_are_listed_and_order_is_kept() {
    let entries = vec![
        Some(WorkspaceEntry { name: "beta".to_string(), is_dir: true }),
        Some(WorkspaceEntry { name: "notes.txt".to_string(), is_dir: false }),
        Some(WorkspaceEntry { name: "alpha".to_string(), is_dir: true }),
    ];
    let names = list_local_repository_names(true, entries);
    assert_eq!(names, vec!["beta".to_string(), "alpha".to_string()]);
}

#[test]
fn unreadable_entries_are_skipped_not_fatal() {
    let entries = vec![
        None,
        Some(WorkspaceEntry { name: "repo".to_string(), is_dir: true }),
        None,
    ];
    let names = list_local_repository_names(true, entries);
    assert_eq!(names, vec!["repo".to_string()]);
}

#[test]
fn empty_workspace_yields_no_names() {
    let names = list_local_repository_names(true, Vec::new());
    assert!(names.is_empty());
}
