use repoman::catalog::{classify_status, collect_catalog, CatalogFetch, FetchError, Repository, PAGE_SIZE};

fn repo(name: &str) -> Repository {
    Repository {
        name: name.to_string(),
        description: None,
        clone_url: format!("https://example.invalid/{}.git", name),
        html_url: format!("https://example.invalid/{}", name),
        stargazers_count: 0,
        forks_count: 0,
        language: None,
    }
}

fn page_of(count: usize, label: &str) -> Vec<Repository> {
    let mut page = Vec::new();
    let mut i = 0;
    while i < count {
        page.push(repo(&format!("{}-{}", label, i)));
        i += 1;
    }
    page
}

#[test]
fn one_full_page_then_short_page_makes_two_requests() {
    let pages = vec![page_of(PAGE_SIZE, "p1"), page_of(3, "p2")];
    let (entries, requests) = collect_catalog(pages);
    assert_eq!(requests, 2);
    assert_eq!(entries.len(), PAGE_SIZE + 3);
    // page order, then within-page order
    assert_eq!(entries[0].name, "p1-0");
    assert_eq!(entries[PAGE_SIZE - 1].name, format!("p1-{}", PAGE_SIZE - 1));
    assert_eq!(entries[PAGE_SIZE].name, "p2-0");
    assert_eq!(entries[PAGE_SIZE + 2].name, "p2-2");
}

#[test]
fn single_short_page_makes_one_request() {
    let pages = vec![page_of(7, "only")];
    let (entries, requests) = collect_catalog(pages);
    assert_eq!(requests, 1);
    assert_eq!(entries.len(), 7);
}

#[test]
fn single_empty_page_makes_one_request_and_no_entries() {
    let pages = vec![Vec::new()];
    let (entries, requests) = collect_catalog(pages);
    assert_eq!(requests, 1);
    assert!(entries.is_empty());
}

#[test]
fn loop_never_requests_past_a_short_page() {
    // a short page in the middle: the pages after it are never consumed
    let pages = vec![page_of(PAGE_SIZE, "a"), page_of(99, "b"), page_of(PAGE_SIZE, "c"), page_of(0, "d")];
    let (entries, requests) = collect_catalog(pages);
    assert_eq!(requests, 2);
    assert_eq!(entries.len(), PAGE_SIZE + 99);
    assert_eq!(entries.last().unwrap().name, "b-98");
}

#[test]
fn full_page_is_never_final_short_and_empty_always_are() {
    let mut fetch = CatalogFetch::new();
    fetch.record_page(page_of(PAGE_SIZE, "full"));
    assert!(!fetch.done);

    let mut fetch = CatalogFetch::new();
    fetch.record_page(page_of(PAGE_SIZE - 1, "short"));
    assert!(fetch.done);

    let mut fetch = CatalogFetch::new();
    fetch.record_page(Vec::new());
    assert!(fetch.done);
}

#[test]
fn pending_page_counts_from_one_and_stops_when_done() {
    let mut fetch = CatalogFetch::new();
    assert_eq!(fetch.pending_page(), Some(1));
    fetch.record_page(page_of(PAGE_SIZE, "p1"));
    assert_eq!(fetch.pending_page(), Some(2));
    fetch.record_page(page_of(10, "p2"));
    assert_eq!(fetch.pending_page(), None);
    let entries = fetch.into_repositories();
    assert_eq!(entries.len(), PAGE_SIZE + 10);
}

#[test]
fn not_found_carries_the_account_name_and_differs_from_api_error() {
    let r = classify_status("ghost-org", 404, "Not Found".to_string());
    match r {
        Err(FetchError::NotFound { account }) => assert_eq!(account, "ghost-org"),
        other => panic!("expected NotFound, got {:?}", other),
    }

    let r = classify_status("ghost-org", 500, "Internal Server Error".to_string());
    match r {
        Err(FetchError::ApiError { status, reason }) => {
            assert_eq!(status, 500);
            assert_eq!(reason, "Internal Server Error");
        }
        other => panic!("expected ApiError, got {:?}", other),
    }
}

#[test]
fn success_statuses_pass_through() {
    assert!(classify_status("org", 200, "OK".to_string()).is_ok());
    assert!(classify_status("org", 299, "".to_string()).is_ok());
    assert!(classify_status("org", 301, "Moved Permanently".to_string()).is_err());
    assert!(classify_status("org", 199, "".to_string()).is_err());
}

#[test]
fn transport_and_decode_errors_are_distinct_variants() {
    assert_ne!(FetchError::TransportError, FetchError::DecodeError);
}

#[test]
fn authorization_header_only_when_a_token_is_supplied() {
    assert_eq!(repoman::catalog::authorization_header(None), None);
    assert_eq!(
        repoman::catalog::authorization_header(Some("abc123")),
        Some("token abc123".to_string())
    );
}
