//! Remote catalog listing: the paginated fetch of an account's repositories.
//!
//! The network call itself is made by the caller; this module decides which
//! page to request next, when the catalog is complete, and how a response
//! status translates into the error taxonomy.

use vstd::prelude::*;
use vstd::string::StringExecFns;

verus! {

/// One entry of the remote catalog.
#[derive(Debug, Clone)]
pub struct Repository {
    pub name: String,
    pub description: Option<String>,
    pub clone_url: String,
    pub html_url: String,
    pub stargazers_count: u32,
    pub forks_count: u32,
    pub language: Option<String>,
}

/// How a catalog fetch can fail.
#[derive(Debug, Clone, PartialEq, Eq)]
pub enum FetchError {
    /// The account does not exist (the host answered 404).
    NotFound { account: String },
    /// Any other non-success response from the host.
    ApiError { status: u16, reason: String },
    /// A network-level failure; no response was received.
    TransportError,
    /// A page's body could not be parsed into catalog entries.
    DecodeError,
}

/// Number of entries requested per page.
pub const PAGE_SIZE: usize = 100;

/// Translates the HTTP status of one page response into the error taxonomy:
/// 404 means the account does not exist, any other non-2xx status is a
/// generic API error carrying the status and its reason phrase, and a 2xx
/// status lets the fetch proceed.
pub fn classify_status(account: &str, status: u16, reason: String) -> (r: Result<(), FetchError>)
    ensures
        (r is Ok) <==> (200 <= status <= 299),
        status == 404 ==> (r matches Err(FetchError::NotFound { account: a }) && a@ == account@),
        !(200 <= status <= 299) && status != 404 ==> (r matches Err(FetchError::ApiError {
            status: s,
            reason: why,
        }) && s == status && why@ == reason@),
{
    if status == 404 {
        Err(FetchError::NotFound { account: String::from_str(account) })
    } else if 200 <= status && status <= 299 {
        Ok(())
    } else {
        Err(FetchError::ApiError { status, reason })
    }
}

/// The Authorization header value a catalog request carries: one is attached
/// exactly when a token was supplied (unauthenticated calls are permitted,
/// only rate-limited harder by the host).
pub fn authorization_header(token: Option<&str>) -> (r: Option<String>)
    ensures
        r is Some <==> token is Some,
        token matches Some(t) ==> (r matches Some(v) && v@ == "token "@ + t@),
{
    match token {
        Some(t) => {
            let mut v = String::from_str("token ");
            v.append(t);
            Some(v)
        },
        None => None,
    }
}

/// Bookkeeping of one paginated catalog fetch. The caller requests the page
/// that `pending_page` names, hands the entries to `record_page`, and repeats
/// until `done`; page requests are sequential, so a page is never requested
/// after a short page was seen.
pub struct CatalogFetch {
    /// Entries accumulated so far, in page order, then within-page order.
    pub repos: Vec<Repository>,
    /// Pages recorded so far; the next page to request is this plus one.
    pub pages_fetched: usize,
    /// Whether a short or empty page has ended the fetch.
    pub done: bool,
}

impl CatalogFetch {
    /// Every recorded page but the last was full, so while the fetch is not
    /// done the accumulated entries account for `PAGE_SIZE` per page; this
    /// also keeps the page counter far from overflow.
    pub open spec fn wf(self) -> bool {
        !self.done ==> self.repos@.len() >= self.pages_fetched * (PAGE_SIZE as int)
    }

    pub fn new() -> (r: CatalogFetch)
        ensures
            r.wf(),
            r.repos@ == Seq::<Repository>::empty(),
            r.pages_fetched == 0,
            !r.done,
    {
        CatalogFetch { repos: Vec::new(), pages_fetched: 0, done: false }
    }

    /// The number of the page to request next (pages count from 1), or `None`
    /// once a short page has ended the fetch.
    pub fn pending_page(&self) -> (r: Option<usize>)
        requires
            self.wf(),
        ensures
            r matches Some(p) <==> !self.done,
            !self.done ==> r == Some::<usize>((self.pages_fetched + 1) as usize),
    {
        if self.done {
            None
        } else {
            proof {
                assert(self.repos.len() == self.repos@.len());
                assert(self.pages_fetched * (PAGE_SIZE as int) >= self.pages_fetched);
            }
            Some(self.pages_fetched + 1)
        }
    }

    /// Records the entries one page returned, preserving their order after
    /// everything already accumulated. A page of exactly `PAGE_SIZE` entries
    /// is never final; a page of fewer (zero included) always is.
    pub fn record_page(&mut self, entries: Vec<Repository>)
        requires
            old(self).wf(),
            !old(self).done,
        ensures
            final(self).wf(),
            final(self).repos@ == old(self).repos@ + entries@,
            final(self).pages_fetched == old(self).pages_fetched + 1,
            final(self).done <==> entries@.len() < PAGE_SIZE,
    {
        let is_final = entries.len() < PAGE_SIZE;
        let mut entries = entries;
        proof {
            assert(self.repos.len() == self.repos@.len());
            assert(self.pages_fetched * (PAGE_SIZE as int) >= self.pages_fetched);
        }
        self.repos.append(&mut entries);
        self.pages_fetched = self.pages_fetched + 1;
        self.done = is_final;
    }

    /// The accumulated catalog, complete once the fetch is done.
    pub fn into_repositories(self) -> (r: Vec<Repository>)
        ensures
            r == self.repos,
    {
        self.repos
    }
}

/// The pages of a catalog held page by page in vectors, as sequences.
pub open spec fn page_views(pages: Seq<Vec<Repository>>) -> Seq<Seq<Repository>> {
    pages.map_values(|p: Vec<Repository>| p@)
}

/// How many pages the fetch loop consumes on a catalog whose pages are
/// `pages`: it takes pages in order and stops with the first short one.
pub open spec fn pages_consumed(pages: Seq<Seq<Repository>>) -> nat
    decreases pages.len(),
{
    if pages.len() == 0 {
        0
    } else if pages.first().len() < PAGE_SIZE {
        1
    } else {
        1 + pages_consumed(pages.drop_first())
    }
}

/// The entries the fetch loop accumulates on that catalog: every entry of
/// each consumed page, in page order, then within-page order.
pub open spec fn entries_collected(pages: Seq<Seq<Repository>>) -> Seq<Repository>
    decreases pages.len(),
{
    if pages.len() == 0 {
        Seq::empty()
    } else if pages.first().len() < PAGE_SIZE {
        pages.first()
    } else {
        pages.first() + entries_collected(pages.drop_first())
    }
}

/// The fetch loop stops exactly at the first short page: when every page
/// before index `k` is full and page `k` is short, the loop consumes the
/// pages up to and including `k` and accumulates exactly their entries.
pub proof fn lemma_fetch_stops_at_short_page(pages: Seq<Seq<Repository>>, k: int)
    requires
        0 <= k < pages.len(),
        forall|j: int| 0 <= j < k ==> (#[trigger] pages[j]).len() >= PAGE_SIZE,
        pages[k].len() < PAGE_SIZE,
    ensures
        pages_consumed(pages) == k + 1,
        entries_collected(pages) == pages.take(k).flatten() + pages[k],
    decreases k,
{
    if k == 0 {
        assert(pages.take(0).flatten() =~= Seq::<Repository>::empty());
        assert(entries_collected(pages) =~= pages.take(0).flatten() + pages[0]);
    } else {
        let rest = pages.drop_first();
        assert(forall|j: int| 0 <= j < k - 1 ==> (#[trigger] rest[j]).len() >= PAGE_SIZE);
        lemma_fetch_stops_at_short_page(rest, k - 1);
        assert(pages.take(k) =~= seq![pages.first()] + rest.take(k - 1));
        vstd::seq_lib::lemma_flatten_concat(seq![pages.first()], rest.take(k - 1));
        seq![pages.first()].lemma_flatten_one_element();
        assert(pages.take(k).flatten() == pages.first() + rest.take(k - 1).flatten());
        assert(entries_collected(pages) =~= pages.take(k).flatten() + pages[k]);
    }
}

/// Law: on a catalog of `p` full pages followed by one short or empty page,
/// the fetch loop requests exactly `p + 1` pages and returns every entry, in
/// page order, then within-page order.
pub proof fn lemma_pagination_complete(pages: Seq<Seq<Repository>>)
    requires
        pages.len() >= 1,
        forall|j: int| 0 <= j < pages.len() - 1 ==> (#[trigger] pages[j]).len() == PAGE_SIZE,
        pages.last().len() < PAGE_SIZE,
    ensures
        pages_consumed(pages) == pages.len(),
        entries_collected(pages) == pages.flatten(),
{
    let k = pages.len() - 1;
    lemma_fetch_stops_at_short_page(pages, k);
    assert(pages =~= pages.take(k) + seq![pages[k]]);
    vstd::seq_lib::lemma_flatten_concat(pages.take(k), seq![pages[k]]);
    seq![pages[k]].lemma_flatten_one_element();
    assert(entries_collected(pages) == pages.flatten());
}

/// Runs the fetch loop over a catalog whose pages are already at hand, in
/// order: pages are consumed one at a time until the first short one, never
/// past it. Returns the accumulated entries and how many pages were
/// requested.
pub fn collect_catalog(pages: Vec<Vec<Repository>>) -> (r: (Vec<Repository>, usize))
    requires
        pages@.len() >= 1,
        pages@.last()@.len() < PAGE_SIZE,
    ensures
        r.0@ == entries_collected(page_views(pages@)),
        r.1 == pages_consumed(page_views(pages@)),
{
    let ghost all: Seq<Seq<Repository>> = page_views(pages@);
    let mut pages = pages;
    let mut fetch = CatalogFetch::new();
    let mut i: usize = 0;
    while !fetch.done
        invariant
            all.len() >= 1,
            all.last().len() < PAGE_SIZE,
            pages@.len() == all.len() - i,
            forall|j: int| 0 <= j < pages@.len() ==> pages@[j]@ == all[i + j],
            fetch.wf(),
            fetch.pages_fetched == i,
            !fetch.done ==> i < all.len(),
            !fetch.done ==> forall|j: int| 0 <= j < i ==> (#[trigger] all[j]).len() >= PAGE_SIZE,
            !fetch.done ==> fetch.repos@ == all.take(i as int).flatten(),
            fetch.done ==> fetch.repos@ == entries_collected(all) && i == pages_consumed(all),
        decreases all.len() - i,
    {
        let ghost pv = pages@;
        let page = pages.remove(0);
        let ghost short = page@.len() < PAGE_SIZE;
        fetch.record_page(page);
        proof {
            broadcast use Seq::lemma_flatten_push;

            assert(pages@ =~= pv.drop_first());
            assert(page@ == all[i as int]);
            assert(all.take(i + 1) =~= all.take(i as int).push(all[i as int]));
            if short {
                lemma_fetch_stops_at_short_page(all, i as int);
                assert(fetch.repos@ == all.take(i as int).flatten() + all[i as int]);
            } else {
                assert(fetch.repos@ == all.take(i + 1).flatten());
                // a full page cannot be the last one: the last page is short
                assert(i + 1 < all.len()) by {
                    assert(all[i as int].len() >= PAGE_SIZE);
                    assert(all.last().len() < PAGE_SIZE);
                }
            }
        }
        i = i + 1;
    }
    let requests = fetch.pages_fetched;
    (fetch.into_repositories(), requests)
}

} // verus!

