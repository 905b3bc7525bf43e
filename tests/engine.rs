use site_vacuum::crawler::process_page;
use site_vacuum::engine::{CrawlEngine, CrawlError, PageContent};
use site_vacuum::events::EventKind;
use site_vacuum::fetch::FetchError;
use site_vacuum::links::PageUrl;

fn page(html: &str, url: &str, engine: &CrawlEngine) -> PageContent {
    process_page(html, url, &engine.base, "converted")
}

fn empty_page() -> PageContent {
    PageContent { markdown: String::new(), links: Vec::new() }
}

fn frontier_in_scope(engine: &CrawlEngine) -> bool {
    engine.frontier.iter().all(|p| p.host == engine.base.host && !p.text.contains('?') && !p.text.contains('#'))
}

#[test]
fn new_engine_starts_with_seed() {
    let e = CrawlEngine::new("http://example.test/", 3).unwrap();
    assert_eq!(e.frontier.len(), 1);
    assert_eq!(e.frontier[0].text, "http://example.test/");
    assert_eq!(e.base.host, "example.test");
    assert_eq!(e.base.path, "/");
    assert_eq!(e.visited_count(), 0);
    assert!(!e.is_finished());
}

#[test]
fn new_engine_refuses_bad_input() {
    assert_eq!(CrawlEngine::new("http://example.test/", 0).err(), Some(CrawlError::ZeroConcurrency));
    assert_eq!(CrawlEngine::new("not a url", 2).err(), Some(CrawlError::InvalidBaseUrl));
    assert_eq!(CrawlEngine::new("mailto:someone@example.test", 2).err(), Some(CrawlError::InvalidBaseUrl));
}

#[test]
fn scenario_same_domain_links_only() {
    let mut e = CrawlEngine::new("http://example.test/", 4).unwrap();
    let start = e.started_event(1);
    assert_eq!(start.kind, EventKind::Started);
    let d = e.dispatch_next(2).unwrap();
    assert_eq!(d.page.text, "http://example.test/");
    assert_eq!(d.event.kind, EventKind::VisitingUrl);
    assert_eq!(d.event.url, "http://example.test/");
    let html = "<html><body><p>Home</p><a href=\"/a\">A</a><a href=\"b?x=1#top\">B</a>\
                <a href=\"http://other.test/x\">X</a></body></html>";
    let content = page(html, "http://example.test/", &e);
    let ev = e.complete("http://example.test/", Ok(content), 3).unwrap();
    assert_eq!(ev.kind, EventKind::UrlProcessed);
    assert_eq!(e.frontier.len(), 2);
    assert!(frontier_in_scope(&e));
    let mut texts: Vec<String> = e.frontier.iter().map(|p| p.text.clone()).collect();
    texts.sort();
    assert_eq!(texts, vec!["http://example.test/a".to_string(), "http://example.test/b".to_string()]);
    while !e.is_finished() {
        while let Some(d) = e.dispatch_next(4) {
            assert_ne!(d.page.host, "other.test");
            let links = page("<a href=\"/\">home</a><a href=\"http://other.test/y\">y</a>", &d.page.text, &e);
            e.complete(&d.page.text, Ok(links), 5).unwrap();
            assert!(frontier_in_scope(&e));
        }
    }
    assert_eq!(e.visited_count(), 3);
    assert!(e.visited.iter().all(|v| !v.contains("other.test")));
    let done = e.completed_event(9);
    assert_eq!(done.kind, EventKind::Completed);
    assert_eq!(done.message, "Crawl completed: 3 pages visited");
}

#[test]
fn scenario_failed_page_is_omitted() {
    let mut e = CrawlEngine::new("http://example.test/", 2).unwrap();
    let d = e.dispatch_next(0).unwrap();
    let seed = PageContent {
        markdown: "Welcome".to_string(),
        links: vec![PageUrl::parse("http://example.test/broken").unwrap(), PageUrl::parse("http://example.test/ok").unwrap()],
    };
    e.complete(&d.page.text, Ok(seed), 0).unwrap();
    let mut events = Vec::new();
    while !e.is_finished() {
        while let Some(d) = e.dispatch_next(1) {
            let outcome = if d.page.path == "/broken" {
                Err(FetchError::HttpStatus {
                    url: d.page.text.clone(),
                    status: 500,
                    reason: "Internal Server Error".to_string(),
                })
            } else {
                Ok(PageContent { markdown: "Fine".to_string(), links: Vec::new() })
            };
            events.push(e.complete(&d.page.text, outcome, 1).unwrap());
        }
    }
    let err = events.iter().find(|ev| ev.kind == EventKind::Error).unwrap();
    assert_eq!(err.url, "http://example.test/broken");
    assert_eq!(err.message, "HTTP error when fetching http://example.test/broken: 500 (Internal Server Error)");
    let doc = e.document();
    assert_eq!(doc, "# http://example.test/\n\nWelcome\n\n## /ok\n\nFine\n\n");
    assert!(!doc.contains("/broken"));
    assert_eq!(e.visited_count(), 3);
}

#[test]
fn scenario_single_permit_visits_all() {
    let mut e = CrawlEngine::new("http://example.test/", 1).unwrap();
    let seed_html = "<a href=\"/p1\">1</a><a href=\"/p2\">2</a><a href=\"/p3\">3</a><a href=\"/p4\">4</a>";
    let mut order = Vec::new();
    while !e.is_finished() {
        let d = e.dispatch_next(0).unwrap();
        assert_eq!(e.in_flight.len(), 1);
        assert!(e.dispatch_next(0).is_none());
        let html = if d.page.path == "/" { seed_html } else { "<a href=\"/\">back</a>" };
        let content = page(html, &d.page.text, &e);
        e.complete(&d.page.text, Ok(content), 0).unwrap();
        assert_eq!(e.in_flight.len(), 0);
        order.push(d.page.path.clone());
    }
    assert_eq!(e.visited_count(), 5);
    order.sort();
    assert_eq!(order, vec!["/", "/p1", "/p2", "/p3", "/p4"]);
}

#[test]
fn concurrency_bound_holds() {
    let mut e = CrawlEngine::new("http://example.test/", 2).unwrap();
    let d = e.dispatch_next(0).unwrap();
    let html = "<a href=\"/a\"></a><a href=\"/b\"></a><a href=\"/c\"></a><a href=\"/d\"></a>";
    let content = page(html, &d.page.text, &e);
    e.complete(&d.page.text, Ok(content), 0).unwrap();
    let mut peak = 0;
    let mut running: Vec<String> = Vec::new();
    while !e.is_finished() {
        while let Some(d) = e.dispatch_next(0) {
            running.push(d.page.text.clone());
            peak = peak.max(e.in_flight.len());
            assert!(e.in_flight.len() <= 2);
        }
        let url = running.remove(0);
        e.complete(&url, Ok(empty_page()), 0).unwrap();
    }
    assert_eq!(peak, 2);
    assert_eq!(e.visited_count(), 5);
}

#[test]
fn no_url_dispatched_twice() {
    let mut e = CrawlEngine::new("http://example.test/", 3).unwrap();
    let d = e.dispatch_next(0).unwrap();
    let html = "<a href=\"/a\"></a><a href=\"/a#x\"></a><a href=\"/a?q=2\"></a><a href=\"/\"></a>";
    let content = page(html, &d.page.text, &e);
    e.complete(&d.page.text, Ok(content), 0).unwrap();
    assert_eq!(e.frontier.len(), 3);
    let first = e.dispatch_next(0).unwrap();
    assert_eq!(first.page.text, "http://example.test/a");
    assert!(e.dispatch_next(0).is_none());
    assert_eq!(e.frontier.len(), 0);
    e.complete(&first.page.text, Ok(empty_page()), 0).unwrap();
    assert!(e.complete(&first.page.text, Ok(empty_page()), 0).is_none());
    assert!(e.is_finished());
    assert_eq!(e.visited, vec!["http://example.test/".to_string(), "http://example.test/a".to_string()]);
}

#[test]
fn complete_of_unknown_url_changes_nothing() {
    let mut e = CrawlEngine::new("http://example.test/", 3).unwrap();
    assert!(e.complete("http://example.test/", Ok(empty_page()), 0).is_none());
    assert_eq!(e.frontier.len(), 1);
    assert_eq!(e.store.len(), 0);
}

#[test]
fn document_twice_is_identical() {
    let mut e = CrawlEngine::new("http://example.test/", 1).unwrap();
    let d = e.dispatch_next(0).unwrap();
    let content = PageContent { markdown: "Seed".to_string(), links: vec![PageUrl::parse("http://example.test/x").unwrap()] };
    e.complete(&d.page.text, Ok(content), 0).unwrap();
    let d = e.dispatch_next(0).unwrap();
    e.complete(&d.page.text, Ok(PageContent { markdown: "X".to_string(), links: Vec::new() }), 0).unwrap();
    let a = e.document();
    let b = e.document();
    assert_eq!(a, b);
    assert!(a.starts_with("# http://example.test/\n\nSeed"));
}

#[test]
fn page_cap_stops_dispatch() {
    let mut e = CrawlEngine::new("http://example.test/", 3).unwrap();
    e.limit_pages(2);
    let d = e.dispatch_next(0).unwrap();
    let html = "<a href=\"/a\"></a><a href=\"/b\"></a><a href=\"/c\"></a>";
    let content = page(html, &d.page.text, &e);
    e.complete(&d.page.text, Ok(content), 0).unwrap();
    let second = e.dispatch_next(0).unwrap();
    assert!(e.dispatch_next(0).is_none());
    assert!(!e.is_finished());
    e.complete(&second.page.text, Ok(empty_page()), 0).unwrap();
    assert!(e.is_finished());
    assert_eq!(e.visited_count(), 2);
    assert_eq!(e.frontier.len(), 2);
    e.limit_pages(0);
    assert_eq!(e.page_limit, Some(2));
}

#[test]
fn crawl_error_descriptions() {
    assert_eq!(CrawlError::InvalidBaseUrl.describe(), "invalid base URL");
    assert_eq!(CrawlError::ZeroConcurrency.describe(), "concurrency must be at least 1");
}

#[test]
fn processed_page_is_tidied() {
    let e = CrawlEngine::new("http://example.test/", 1).unwrap();
    let c = process_page("<a href=\"/x?y#z\">x</a>", "http://example.test/", &e.base, "a\n\n\n\nb");
    assert_eq!(c.markdown, "a\n\nb");
    assert_eq!(c.links.len(), 1);
    assert_eq!(c.links[0].text, "http://example.test/x");
}

#[test]
fn user_info_is_kept_in_addresses() {
    let p = PageUrl::parse("http://user:pw@example.test:8080/a/b?q=1#f").unwrap();
    assert_eq!(p.text, "http://user:pw@example.test:8080/a/b");
    assert_eq!(p.host, "example.test");
    assert_eq!(p.path, "/a/b");
}
