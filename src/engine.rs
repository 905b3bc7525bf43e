//! The crawl engine: frontier, visited set and in-flight tasks of one crawl.
//!
//! The engine makes every decision of a crawl and performs no I/O. Its
//! driver repeatedly asks `dispatch_next` for a page to fetch, runs the
//! fetch as a task, and reports each finished task with `complete`, until
//! `is_finished` holds; the events returned along the way are published to
//! observers.
use vstd::prelude::*;
use crate::events::{CrawlerEvent, EventKind};
use crate::fetch::{error_text, FetchError};
use crate::links::{is_plain_address, page_view, page_view_of, parsed_parts_of, plain_address, PageUrl, PageView};
use crate::store::{document, store_spec, ContentStore};
use crate::text::{decimal, push_decimal, same_text};

verus! {

/// Why a crawl cannot start.
#[derive(Clone, Copy, Debug, PartialEq, Eq, Structural)]
pub enum CrawlError {
    /// The seed URL is malformed or has no host.
    InvalidBaseUrl,
    /// A concurrency bound of zero would never dispatch a page.
    ZeroConcurrency,
}

/// The description of a crawl setup error.
pub open spec fn crawl_error_text(e: CrawlError) -> Seq<char> {
    match e {
        CrawlError::InvalidBaseUrl => "invalid base URL"@,
        CrawlError::ZeroConcurrency => "concurrency must be at least 1"@,
    }
}

impl CrawlError {
    /// A human-readable description of the error.
    pub fn describe(&self) -> (r: &'static str)
        ensures
            r@ == crawl_error_text(*self),
    {
        match self {
            CrawlError::InvalidBaseUrl => "invalid base URL",
            CrawlError::ZeroConcurrency => "concurrency must be at least 1",
        }
    }
}

/// What a finished fetch task hands back: the page converted to Markdown and
/// the links found on it.
pub struct PageContent {
    pub markdown: String,
    pub links: Vec<PageUrl>,
}

/// A page handed out for fetching, with the event that announces it.
pub struct Dispatch {
    pub page: PageUrl,
    pub event: CrawlerEvent,
}

pub open spec fn pages_view(v: Seq<PageUrl>) -> Seq<PageView> {
    v.map_values(|p: PageUrl| page_view(p))
}

/// The strings as character sequences.
pub open spec fn texts(v: Seq<String>) -> Seq<Seq<char>> {
    v.map_values(|s: String| s@)
}

/// The discovered links that join the frontier: those on `host` whose
/// address was not dispatched yet, in discovery order. Links already in the
/// frontier may join again; dispatch skips them.
pub open spec fn admitted(links: Seq<PageView>, host: Seq<char>, visited: Seq<Seq<char>>) -> Seq<
    PageView,
>
    decreases links.len(),
{
    if links.len() == 0 {
        Seq::<PageView>::empty()
    } else {
        admitted(links.drop_last(), host, visited) + if links.last().0 == host && is_plain_address(
            links.last().2,
        ) && !visited.contains(links.last().2) {
            seq![links.last()]
        } else {
            Seq::<PageView>::empty()
        }
    }
}

/// Some frontier entry is written `t`.
pub open spec fn in_frontier(frontier: Seq<PageUrl>, t: Seq<char>) -> bool {
    exists|i: int| 0 <= i < frontier.len() && (#[trigger] frontier[i]).text@ == t
}

/// The written forms of the links that are on `host` and carry no query
/// or fragment marker.
pub open spec fn scoped_texts(links: Seq<PageView>, host: Seq<char>) -> Set<Seq<char>> {
    Set::new(
        |t: Seq<char>|
            exists|i: int|
                0 <= i < links.len() && (#[trigger] links[i]).0 == host && is_plain_address(links[i].2)
                    && links[i].2 == t,
    )
}

/// The text of the event that closes a crawl.
pub open spec fn completed_text(visited: nat) -> Seq<char> {
    "Crawl completed: "@ + decimal(visited) + " pages visited"@
}

/// The state of one crawl.
pub struct CrawlEngine {
    /// The seed address; its host is the crawl's domain.
    pub base: PageUrl,
    /// The most fetch tasks that may be in flight at once.
    pub max_concurrency: usize,
    /// Discovered addresses awaiting dispatch.
    pub frontier: Vec<PageUrl>,
    /// The addresses dispatched so far, in dispatch order.
    pub visited: Vec<String>,
    /// The pages whose fetch task has not been reported yet.
    pub in_flight: Vec<PageUrl>,
    /// The converted pages.
    pub store: ContentStore,
    /// The most pages to dispatch, if the crawl is capped. Once reached,
    /// the rest of the frontier is never dispatched.
    pub page_limit: Option<usize>,
    /// Every address found so far that belongs to the crawl: the seed and
    /// each in-scope link reported on a fetched page.
    pub discovered: Ghost<Set<Seq<char>>>,
}

impl CrawlEngine {
    /// The page cap is set and that many pages were dispatched.
    pub open spec fn cap_reached(&self) -> bool {
        self.page_limit matches Some(n) && self.visited@.len() >= n
    }

    /// The engine's invariant: a positive concurrency bound that the
    /// in-flight tasks respect, no address dispatched twice, a frontier on
    /// the base domain only, distinct in-flight pages among the dispatched
    /// ones, and every discovered address either dispatched or waiting in
    /// the frontier.
    pub open spec fn wf(&self) -> bool {
        &&& self.base.wf()
        &&& self.max_concurrency >= 1
        &&& self.in_flight@.len() <= self.max_concurrency
        &&& texts(self.visited@).no_duplicates()
        &&& forall|i: int|
            0 <= i < self.frontier@.len() ==> (#[trigger] self.frontier@[i]).wf()
                && self.frontier@[i].host@ == self.base.host@
        &&& forall|i: int|
            0 <= i < self.in_flight@.len() ==> (#[trigger] self.in_flight@[i]).wf() && texts(
                self.visited@,
            ).contains(self.in_flight@[i].text@)
        &&& forall|i: int, j: int|
            0 <= i < j < self.in_flight@.len() ==> (#[trigger] self.in_flight@[i]).text@
                != (#[trigger] self.in_flight@[j]).text@
        &&& self.store.wf()
        &&& self.page_limit matches Some(n) ==> self.visited@.len() <= n
        &&& forall|t: Seq<char>| #[trigger]
            self.discovered@.contains(t) ==> texts(self.visited@).contains(t) || in_frontier(
                self.frontier@,
                t,
            )
    }

    /// A crawl from `base` with at most `max_concurrency` tasks in flight:
    /// the frontier holds the base address alone.
    pub fn from_base(base: PageUrl, max_concurrency: usize) -> (r: Result<CrawlEngine, CrawlError>)
        requires
            base.wf(),
        ensures
            max_concurrency == 0 <==> r == Err::<CrawlEngine, CrawlError>(CrawlError::ZeroConcurrency),
            max_concurrency > 0 <==> r is Ok,
            r matches Ok(e) ==> {
                &&& e.wf()
                &&& e.base == base
                &&& e.max_concurrency == max_concurrency
                &&& e.frontier@ == seq![e.frontier@[0]]
                &&& page_view(e.frontier@[0]) == page_view(base)
                &&& e.visited@.len() == 0
                &&& e.in_flight@.len() == 0
                &&& e.store.view().len() == 0
                &&& e.page_limit is None
            },
    {
        if max_concurrency == 0 {
            return Err(CrawlError::ZeroConcurrency);
        }
        let ghost base_text = base.text@;
        let seed = base.duplicate();
        let mut frontier: Vec<PageUrl> = Vec::new();
        frontier.push(seed);
        let e = CrawlEngine {
            base,
            max_concurrency,
            frontier,
            visited: Vec::new(),
            in_flight: Vec::new(),
            store: ContentStore::new(),
            page_limit: None,
            discovered: Ghost(Set::empty().insert(base_text)),
        };
        assert(texts(e.visited@) =~= Seq::<Seq<char>>::empty());
        assert(e.frontier@[0].text@ == base_text);
        assert(in_frontier(e.frontier@, base_text));
        Ok(e)
    }

    /// A crawl from the seed URL `base_url`. A zero concurrency bound is
    /// refused first; then a seed URL that does not parse, has no host, or
    /// whose address keeps a query or fragment marker.
    pub fn new(base_url: &str, max_concurrency: usize) -> (r: Result<CrawlEngine, CrawlError>)
        ensures
            max_concurrency == 0 <==> r == Err::<CrawlEngine, CrawlError>(CrawlError::ZeroConcurrency),
            max_concurrency > 0 ==> (r == Err::<CrawlEngine, CrawlError>(CrawlError::InvalidBaseUrl)
                <==> !(parsed_parts_of(base_url@) matches Some(v) && page_view_of(v) is Some)),
            r matches Ok(e) ==> {
                &&& parsed_parts_of(base_url@) matches Some(v) && page_view_of(v) == Some(page_view(e.base))
                &&& e.wf()
                &&& e.max_concurrency == max_concurrency
                &&& pages_view(e.frontier@) == seq![page_view(e.base)]
                &&& e.visited@.len() == 0
                &&& e.in_flight@.len() == 0
                &&& e.store.view().len() == 0
                &&& e.page_limit is None
            },
    {
        if max_concurrency == 0 {
            return Err(CrawlError::ZeroConcurrency);
        }
        match PageUrl::parse(base_url) {
            Some(base) => {
                let r = CrawlEngine::from_base(base, max_concurrency);
                proof {
                    if r is Ok {
                        let e = r->Ok_0;
                        assert(pages_view(e.frontier@) =~= seq![page_view(e.base)]);
                    }
                }
                r
            },
            None => Err(CrawlError::InvalidBaseUrl),
        }
    }

    /// Whether `text` was dispatched already.
    pub fn is_visited(&self, text: &str) -> (r: bool)
        ensures
            r == texts(self.visited@).contains(text@),
    {
        let mut i: usize = 0;
        while i < self.visited.len()
            invariant
                i <= self.visited@.len(),
                forall|k: int| 0 <= k < i ==> texts(self.visited@)[k] != text@,
            decreases self.visited@.len() - i,
        {
            if same_text(self.visited[i].as_str(), text) {
                assert(texts(self.visited@)[i as int] == text@);
                return true;
            }
            i = i + 1;
        }
        false
    }

    /// Caps the crawl at `limit` dispatched pages; pages already dispatched
    /// count. A cap below that count stops further dispatch at once.
    pub fn limit_pages(&mut self, limit: usize)
        requires
            old(self).wf(),
        ensures
            final(self).wf(),
            final(self).page_limit == Some(if limit < old(self).visited@.len() {
                old(self).visited@.len() as usize
            } else {
                limit
            }),
            final(self).base == old(self).base,
            final(self).max_concurrency == old(self).max_concurrency,
            final(self).frontier == old(self).frontier,
            final(self).visited == old(self).visited,
            final(self).in_flight == old(self).in_flight,
            final(self).store == old(self).store,
            final(self).discovered == old(self).discovered,
    {
        let n = self.visited.len();
        self.page_limit = Some(if limit < n { n } else { limit });
    }

    /// Hands out the next page to fetch. Frontier entries are taken from its
    /// end; those already dispatched are dropped. Nothing is handed out when
    /// the frontier runs empty, `max_concurrency` tasks are in flight, or the
    /// page cap is reached.
    pub fn dispatch_next(&mut self, timestamp: u64) -> (r: Option<Dispatch>)
        requires
            old(self).wf(),
        ensures
            final(self).wf(),
            final(self).base == old(self).base,
            final(self).max_concurrency == old(self).max_concurrency,
            final(self).store == old(self).store,
            final(self).page_limit == old(self).page_limit,
            final(self).discovered == old(self).discovered,
            final(self).frontier@.len() <= old(self).frontier@.len(),
            final(self).frontier@ == old(self).frontier@.take(final(self).frontier@.len() as int),
            r is None ==> {
                &&& final(self).visited == old(self).visited
                &&& final(self).in_flight == old(self).in_flight
                &&& (final(self).frontier@.len() == 0 || old(self).in_flight@.len()
                    == old(self).max_concurrency || old(self).cap_reached())
                &&& forall|j: int|
                    final(self).frontier@.len() <= j < old(self).frontier@.len() ==> texts(
                        old(self).visited@,
                    ).contains(#[trigger] old(self).frontier@[j].text@)
            },
            r matches Some(d) ==> {
                &&& !old(self).cap_reached()
                &&& final(self).frontier@.len() < old(self).frontier@.len()
                &&& d.page == old(self).frontier@[final(self).frontier@.len() as int]
                &&& forall|j: int|
                    final(self).frontier@.len() < j < old(self).frontier@.len() ==> texts(
                        old(self).visited@,
                    ).contains(#[trigger] old(self).frontier@[j].text@)
                &&& !texts(old(self).visited@).contains(d.page.text@)
                &&& texts(final(self).visited@) == texts(old(self).visited@).push(d.page.text@)
                &&& pages_view(final(self).in_flight@) == pages_view(old(self).in_flight@).push(
                    page_view(d.page),
                )
                &&& d.event.kind == EventKind::VisitingUrl
                &&& d.event.url@ == d.page.text@
                &&& d.event.timestamp == timestamp
            },
    {
        let ghost old_frontier = self.frontier@;
        loop
            invariant
                self.wf(),
                self.base == old(self).base,
                self.max_concurrency == old(self).max_concurrency,
                self.store == old(self).store,
                self.page_limit == old(self).page_limit,
                self.discovered == old(self).discovered,
                self.visited == old(self).visited,
                self.in_flight == old(self).in_flight,
                old_frontier == old(self).frontier@,
                self.frontier@.len() <= old_frontier.len(),
                self.frontier@ == old_frontier.take(self.frontier@.len() as int),
                forall|j: int|
                    self.frontier@.len() <= j < old_frontier.len() ==> texts(
                        old(self).visited@,
                    ).contains(#[trigger] old_frontier[j].text@),
            decreases self.frontier@.len(),
        {
            if self.frontier.len() == 0 || self.in_flight.len() >= self.max_concurrency {
                return None;
            }
            match self.page_limit {
                Some(n) => {
                    if self.visited.len() >= n {
                        return None;
                    }
                },
                None => {},
            }
            let ghost prev = self.frontier@;
            let page = self.frontier.pop().unwrap();
            assert(self.frontier@ =~= old_frontier.take(self.frontier@.len() as int));
            proof {
                assert forall|t: Seq<char>| #[trigger] self.discovered@.contains(t) implies texts(
                    self.visited@,
                ).contains(t) || in_frontier(self.frontier@, t) || t == page.text@ by {
                    if !texts(self.visited@).contains(t) {
                        let i = choose|i: int| 0 <= i < prev.len() && (#[trigger] prev[i]).text@ == t;
                        if i < self.frontier@.len() {
                            assert(self.frontier@[i] == prev[i]);
                        }
                    }
                }
            }
            if !self.is_visited(page.text.as_str()) {
                let ghost vis = texts(self.visited@);
                let ghost fl = pages_view(self.in_flight@);
                let ghost text = page.text@;
                self.visited.push(page.text.clone());
                assert(texts(self.visited@) =~= vis.push(text));
                let event = CrawlerEvent::new(EventKind::VisitingUrl, page.text.as_str(), String::from_str("Visiting URL"), timestamp);
                let copy = page.duplicate();
                self.in_flight.push(copy);
                assert(pages_view(self.in_flight@) =~= fl.push(page_view(page)));
                proof {
                    assert(texts(self.visited@)[vis.len() as int] == text);
                    assert forall|t: Seq<char>| #[trigger] self.discovered@.contains(t) implies texts(
                        self.visited@,
                    ).contains(t) || in_frontier(self.frontier@, t) by {
                        if vis.contains(t) {
                            let k = choose|k: int| 0 <= k < vis.len() && vis[k] == t;
                            assert(texts(self.visited@)[k] == vis[k]);
                        }
                    }
                    assert forall|i: int| 0 <= i < self.in_flight@.len() implies (#[trigger] self.in_flight@[i]).wf() && texts(
                        self.visited@,
                    ).contains(self.in_flight@[i].text@) by {
                        if i < self.in_flight@.len() - 1 {
                            assert(vis.contains(self.in_flight@[i].text@));
                            let k = choose|k: int| 0 <= k < vis.len() && vis[k] == self.in_flight@[i].text@;
                            assert(texts(self.visited@)[k] == vis[k]);
                        } else {
                            assert(texts(self.visited@)[vis.len() as int] == text);
                        }
                    }
                }
                return Some(Dispatch { page, event });
            }
        }
    }

    /// The position of the in-flight page written `url`, if any.
    fn in_flight_position(&self, url: &str) -> (r: Option<usize>)
        ensures
            r matches Some(i) ==> i < self.in_flight@.len() && self.in_flight@[i as int].text@ == url@,
            r is None ==> forall|i: int| 0 <= i < self.in_flight@.len() ==> self.in_flight@[i].text@ != url@,
    {
        let mut i: usize = 0;
        while i < self.in_flight.len()
            invariant
                i <= self.in_flight@.len(),
                forall|k: int| 0 <= k < i ==> self.in_flight@[k].text@ != url@,
            decreases self.in_flight@.len() - i,
        {
            if same_text(self.in_flight[i].text.as_str(), url) {
                return Some(i);
            }
            i = i + 1;
        }
        None
    }

    /// Adds to the frontier each of `links` that is on the base domain and
    /// not dispatched yet.
    fn admit_links(&mut self, links: &Vec<PageUrl>)
        requires
            old(self).wf(),
        ensures
            final(self).wf(),
            final(self).base == old(self).base,
            final(self).max_concurrency == old(self).max_concurrency,
            final(self).store == old(self).store,
            final(self).visited == old(self).visited,
            final(self).in_flight == old(self).in_flight,
            final(self).page_limit == old(self).page_limit,
            final(self).discovered == old(self).discovered,
            pages_view(final(self).frontier@) == pages_view(old(self).frontier@) + admitted(
                pages_view(links@),
                old(self).base.host@,
                texts(old(self).visited@),
            ),
    {
        let mut i: usize = 0;
        while i < links.len()
            invariant
                self.wf(),
                i <= links@.len(),
                self.base == old(self).base,
                self.max_concurrency == old(self).max_concurrency,
                self.store == old(self).store,
                self.visited == old(self).visited,
                self.in_flight == old(self).in_flight,
                self.page_limit == old(self).page_limit,
                self.discovered == old(self).discovered,
                pages_view(self.frontier@) == pages_view(old(self).frontier@) + admitted(
                    pages_view(links@.take(i as int)),
                    old(self).base.host@,
                    texts(old(self).visited@),
                ),
            decreases links@.len() - i,
        {
            let l = &links[i];
            let ghost before = pages_view(self.frontier@);
            assert(pages_view(links@.take(i as int + 1)).drop_last() =~= pages_view(links@.take(i as int)));
            assert(pages_view(links@.take(i as int + 1)).last() == page_view(*l));
            if same_text(l.host.as_str(), self.base.host.as_str()) && plain_address(l.text.as_str()) {
                if !self.is_visited(l.text.as_str()) {
                    let p = l.duplicate();
                    let ghost prev = self.frontier@;
                    self.frontier.push(p);
                    proof {
                        assert forall|t: Seq<char>| #[trigger] self.discovered@.contains(t) implies texts(
                            self.visited@,
                        ).contains(t) || in_frontier(self.frontier@, t) by {
                            if in_frontier(prev, t) {
                                let k = choose|k: int| 0 <= k < prev.len() && (#[trigger] prev[k]).text@ == t;
                                assert(self.frontier@[k] == prev[k]);
                            }
                        }
                    }
                    assert(pages_view(self.frontier@) =~= before.push(page_view(p)));
                } else {
                    assert(pages_view(self.frontier@) =~= before + Seq::<PageView>::empty());
                }
            } else {
                assert(pages_view(self.frontier@) =~= before + Seq::<PageView>::empty());
            }
            i = i + 1;
        }
        assert(links@.take(links@.len() as int) =~= links@);
    }

    /// Reports the end of the fetch task for the in-flight page written
    /// `url`. On success the page's Markdown is stored under its path and its
    /// new in-scope links join the frontier; a failure only yields an `Error`
    /// event. A `url` that is not in flight changes nothing.
    pub fn complete(&mut self, url: &str, outcome: Result<PageContent, FetchError>, timestamp: u64) -> (r:
        Option<CrawlerEvent>)
        requires
            old(self).wf(),
        ensures
            final(self).wf(),
            final(self).base == old(self).base,
            final(self).max_concurrency == old(self).max_concurrency,
            final(self).visited == old(self).visited,
            final(self).page_limit == old(self).page_limit,
            r is None <==> forall|i: int|
                0 <= i < old(self).in_flight@.len() ==> old(self).in_flight@[i].text@ != url@,
            r is None ==> *final(self) == *old(self),
            r matches Some(ev) ==> {
                &&& ev.url@ == url@
                &&& ev.timestamp == timestamp
                &&& exists|i: int|
                    0 <= i < old(self).in_flight@.len() && old(self).in_flight@[i].text@ == url@
                        && final(self).in_flight@ == old(self).in_flight@.remove(i) && match outcome {
                        Ok(c) => {
                            &&& ev.kind == EventKind::UrlProcessed
                            &&& final(self).discovered@ == old(self).discovered@.union(
                                scoped_texts(pages_view(c.links@), old(self).base.host@),
                            )
                            &&& final(self).store.view() == store_spec(
                                old(self).store.view(),
                                old(self).in_flight@[i].path@,
                                c.markdown@,
                            )
                            &&& pages_view(final(self).frontier@) == pages_view(old(self).frontier@)
                                + admitted(
                                pages_view(c.links@),
                                old(self).base.host@,
                                texts(old(self).visited@),
                            )
                        },
                        Err(e) => {
                            &&& ev.kind == EventKind::Error
                            &&& ev.message@ == error_text(e)
                            &&& final(self).store == old(self).store
                            &&& final(self).frontier == old(self).frontier
                            &&& final(self).discovered == old(self).discovered
                        },
                    }
            },
    {
        let i = match self.in_flight_position(url) {
            Some(i) => i,
            None => {
                return None;
            },
        };
        let ghost old_in_flight = self.in_flight@;
        let page = self.in_flight.remove(i);
        assert forall|k: int| 0 <= k < self.in_flight@.len() implies (#[trigger] self.in_flight@[k]).wf()
            && texts(self.visited@).contains(self.in_flight@[k].text@) by {
            if k < i {
                assert(self.in_flight@[k] == old_in_flight[k]);
            } else {
                assert(self.in_flight@[k] == old_in_flight[k + 1]);
            }
        }
        match outcome {
            Ok(content) => {
                self.store.store(page.path, content.markdown);
                let ghost fo = pages_view(self.frontier@);
                let ghost lv = pages_view(content.links@);
                let ghost host = self.base.host@;
                let ghost vis = texts(self.visited@);
                self.admit_links(&content.links);
                proof {
                    assert forall|t: Seq<char>| #[trigger] scoped_texts(lv, host).contains(t) implies vis.contains(t)
                        || in_frontier(self.frontier@, t) by {
                        let i = choose|i: int|
                            0 <= i < lv.len() && (#[trigger] lv[i]).0 == host && is_plain_address(lv[i].2) && lv[i].2
                                == t;
                        if !vis.contains(t) {
                            lemma_admitted_contains(lv, host, vis, i);
                            let adm = admitted(lv, host, vis);
                            let k = choose|k: int| 0 <= k < adm.len() && adm[k] == lv[i];
                            let j = fo.len() + k;
                            assert(j < (fo + adm).len());
                            assert(pages_view(self.frontier@).len() == self.frontier@.len());
                            assert((fo + adm)[j] == adm[k]);
                            assert(pages_view(self.frontier@)[j] == lv[i]);
                            assert(pages_view(self.frontier@)[j] == page_view(self.frontier@[j]));
                            assert(self.frontier@[j].text@ == t);
                            assert(in_frontier(self.frontier@, t));
                        }
                    }
                }
                self.discovered = Ghost(self.discovered@.union(scoped_texts(lv, host)));
                Some(CrawlerEvent::new(EventKind::UrlProcessed, url, String::from_str("Page processed"), timestamp))
            },
            Err(e) => {
                let message = e.describe();
                Some(CrawlerEvent::new(EventKind::Error, url, message, timestamp))
            },
        }
    }

    /// The crawl is over: nothing is in flight, and nothing awaits dispatch
    /// or the page cap is reached.
    pub fn is_finished(&self) -> (r: bool)
        ensures
            r == (self.in_flight@.len() == 0 && (self.frontier@.len() == 0 || self.cap_reached())),
    {
        let capped = match self.page_limit {
            Some(n) => self.visited.len() >= n,
            None => false,
        };
        self.in_flight.len() == 0 && (self.frontier.len() == 0 || capped)
    }

    /// The number of addresses dispatched so far.
    pub fn visited_count(&self) -> (r: usize)
        ensures
            r == self.visited@.len(),
    {
        self.visited.len()
    }

    /// The event that opens the crawl.
    pub fn started_event(&self, timestamp: u64) -> (r: CrawlerEvent)
        ensures
            r.kind == EventKind::Started,
            r.url@ == self.base.text@,
            r.timestamp == timestamp,
    {
        CrawlerEvent::new(EventKind::Started, self.base.text.as_str(), String::from_str("Crawl started"), timestamp)
    }

    /// The event that closes the crawl, with the number of pages visited.
    pub fn completed_event(&self, timestamp: u64) -> (r: CrawlerEvent)
        ensures
            r.kind == EventKind::Completed,
            r.url@ == self.base.text@,
            r.message@ == completed_text(self.visited@.len()),
            r.timestamp == timestamp,
    {
        let mut m = String::from_str("Crawl completed: ");
        push_decimal(&mut m, self.visited.len() as u64);
        m.append(" pages visited");
        proof {
            reveal_strlit("Crawl completed: ");
            reveal_strlit(" pages visited");
        }
        CrawlerEvent::new(EventKind::Completed, self.base.text.as_str(), m, timestamp)
    }

    /// The assembled document of the pages stored so far.
    pub fn document(&self) -> (r: String)
        requires
            self.wf(),
        ensures
            r@ == document(self.store.view(), self.base.text@, self.base.path@),
    {
        self.store.assemble_document(&self.base)
    }
}

/// No address is dispatched twice: the visited addresses are distinct, so
/// their number is the number of distinct addresses dispatched.
pub proof fn lemma_dispatched_once(e: CrawlEngine)
    requires
        e.wf(),
    ensures
        texts(e.visited@).no_duplicates(),
        texts(e.visited@).to_set().len() == e.visited@.len(),
{
    texts(e.visited@).unique_seq_to_set();
}

/// Every frontier entry is on the base domain, and its written form
/// carries no query and no fragment.
pub proof fn lemma_frontier_scoped(e: CrawlEngine)
    requires
        e.wf(),
    ensures
        forall|i: int|
            0 <= i < e.frontier@.len() ==> (#[trigger] e.frontier@[i]).host@ == e.base.host@
                && !e.frontier@[i].text@.contains('?') && !e.frontier@[i].text@.contains('#'),
{
}

/// Each admitted link is on the given host, carries no query and no
/// fragment, and was not dispatched yet.
pub proof fn lemma_admitted_scoped(links: Seq<PageView>, host: Seq<char>, visited: Seq<Seq<char>>)
    ensures
        forall|i: int|
            0 <= i < admitted(links, host, visited).len() ==> (#[trigger] admitted(links, host, visited)[i]).0
                == host && is_plain_address(admitted(links, host, visited)[i].2) && !visited.contains(
                admitted(links, host, visited)[i].2,
            ),
    decreases links.len(),
{
    if links.len() > 0 {
        lemma_admitted_scoped(links.drop_last(), host, visited);
        let prev = admitted(links.drop_last(), host, visited);
        assert forall|i: int| 0 <= i < admitted(links, host, visited).len() implies (#[trigger] admitted(
            links,
            host,
            visited,
        )[i]).0 == host && is_plain_address(admitted(links, host, visited)[i].2) && !visited.contains(
            admitted(links, host, visited)[i].2,
        ) by {
            if i < prev.len() {
                assert(admitted(links, host, visited)[i] == prev[i]);
            }
        }
    }
}

/// A link on `host`, without query or fragment marker and not yet
/// dispatched, joins the frontier.
pub proof fn lemma_admitted_contains(links: Seq<PageView>, host: Seq<char>, visited: Seq<Seq<char>>, i: int)
    requires
        0 <= i < links.len(),
        links[i].0 == host,
        is_plain_address(links[i].2),
        !visited.contains(links[i].2),
    ensures
        admitted(links, host, visited).contains(links[i]),
    decreases links.len(),
{
    let prev = admitted(links.drop_last(), host, visited);
    if i == links.len() - 1 {
        assert(admitted(links, host, visited)[prev.len() as int] == links[i]);
    } else {
        lemma_admitted_contains(links.drop_last(), host, visited, i);
        let k = choose|k: int| 0 <= k < prev.len() && prev[k] == links.drop_last()[i];
        assert(admitted(links, host, visited)[k] == prev[k]);
    }
}

/// Once the frontier has drained, every address the crawl found (the seed
/// and each in-scope link of a fetched page) was dispatched: the visited
/// set is closed under the in-scope links of the pages fetched.
pub proof fn lemma_drained_crawl_closed(e: CrawlEngine)
    requires
        e.wf(),
        e.frontier@.len() == 0,
    ensures
        forall|t: Seq<char>| #[trigger] e.discovered@.contains(t) ==> texts(e.visited@).contains(t),
{
}

/// A capped crawl never dispatches more pages than its cap.
pub proof fn lemma_page_cap(e: CrawlEngine)
    requires
        e.wf(),
    ensures
        e.page_limit matches Some(n) ==> e.visited@.len() <= n,
{
}

/// At no time are more than `max_concurrency` fetch tasks in flight.
pub proof fn lemma_concurrency_bound(e: CrawlEngine)
    requires
        e.wf(),
    ensures
        e.in_flight@.len() <= e.max_concurrency,
{
}

} // verus!
