use site_vacuum::converter::{clean_markdown, extract_metadata, extract_title};
use site_vacuum::crawler::Crawler;
use site_vacuum::fetch::{after_render, after_static, check_static_response, first_step, has_render_marker, FetchError, FetchStep};
use site_vacuum::links::{extract_links, page_of_parts, scope_link, PageUrl, UrlParts};
use site_vacuum::models::{content_limit, crawl_page_cap, default_crawl_limit, default_return_format, default_search_limit, parse_format, ReturnFormat, SearchResponse, SearchResult};
use site_vacuum::page::{page_description, page_result, page_title};
use site_vacuum::report::{api_search_url, choose_provider, crawl_results_markdown, google_search_url, mask_key, provider_label, search_results_markdown, SearchProvider};
use site_vacuum::store::ContentStore;
use site_vacuum::text::{push_decimal, same_text, trim_string};

fn parts(host: Option<&str>, path: &str) -> UrlParts {
    UrlParts {
        address: format!("https://{}{}", host.unwrap_or(""), path),
        host: host.map(|h| h.to_string()),
        path: path.to_string(),
        query: Some("a=1".to_string()),
        fragment: Some("frag".to_string()),
    }
}

#[test]
fn render_marker_detection() {
    assert!(has_render_marker("<div ng-app=\"x\"></div>"));
    assert!(has_render_marker("<script>ReactDOM.render()</script>"));
    assert!(has_render_marker("window.addEventListener('load', f)"));
    assert!(has_render_marker("document.getElementById('root')"));
    assert!(has_render_marker("<div id=v-app>"));
    assert!(!has_render_marker("<p>plain page</p>"));
    assert!(!has_render_marker(""));
}

#[test]
fn marker_page_is_rendered_once() {
    assert!(matches!(first_step(false), FetchStep::Static));
    let next = after_static(Ok("<div ng-app></div>".to_string()));
    assert!(matches!(next, FetchStep::Render));
    match after_render(Ok("<p>rendered</p>".to_string())) {
        FetchStep::Done(Ok(html)) => assert_eq!(html, "<p>rendered</p>"),
        other => panic!("unexpected step {:?}", other),
    }
}

#[test]
fn failed_static_fetch_falls_back_to_render() {
    let failed = FetchError::HttpStatus { url: "http://a.test/".to_string(), status: 500, reason: "Internal Server Error".to_string() };
    assert!(matches!(after_static(Err(failed)), FetchStep::Render));
    match after_render(Err(FetchError::RenderSession("no browser".to_string()))) {
        FetchStep::Done(Err(FetchError::RenderSession(m))) => assert_eq!(m, "no browser"),
        other => panic!("unexpected step {:?}", other),
    }
}

#[test]
fn plain_page_kept_and_forced_render() {
    match after_static(Ok("<p>static</p>".to_string())) {
        FetchStep::Done(Ok(html)) => assert_eq!(html, "<p>static</p>"),
        other => panic!("unexpected step {:?}", other),
    }
    assert!(matches!(first_step(true), FetchStep::Render));
}

#[test]
fn static_response_checks() {
    match check_static_response("http://a.test/x", 500, "Internal Server Error", "text/html") {
        Err(FetchError::HttpStatus { url, status, reason }) => {
            assert_eq!(url, "http://a.test/x");
            assert_eq!(status, 500);
            assert_eq!(reason, "Internal Server Error");
        }
        other => panic!("unexpected {:?}", other),
    }
    assert!(matches!(
        check_static_response("http://a.test/x", 404, "Not Found", "application/json"),
        Err(FetchError::HttpStatus { status: 404, .. })
    ));
    match check_static_response("http://a.test/x", 200, "OK", "application/json") {
        Err(FetchError::UnsupportedContentType(ct)) => assert_eq!(ct, "application/json"),
        other => panic!("unexpected {:?}", other),
    }
    assert!(check_static_response("http://a.test/x", 200, "OK", "text/html; charset=utf-8").is_ok());
}

#[test]
fn fetch_error_descriptions() {
    let e = FetchError::HttpStatus { url: "http://a.test/x".to_string(), status: 503, reason: "Service Unavailable".to_string() };
    assert_eq!(e.describe(), "HTTP error when fetching http://a.test/x: 503 (Service Unavailable)");
    assert_eq!(FetchError::UnsupportedContentType("image/png".to_string()).describe(), "Non-HTML content type: image/png");
    assert_eq!(FetchError::RenderSession("gone".to_string()).describe(), "Render session failed: gone");
    assert_eq!(FetchError::Transport("timeout".to_string()).describe(), "Request failed: timeout");
    assert_eq!(FetchError::Conversion("bad".to_string()).describe(), "Conversion to Markdown failed: bad");
}

#[test]
fn scope_link_keeps_only_base_host() {
    let p = scope_link(&parts(Some("example.test"), "/docs"), "example.test").unwrap();
    assert_eq!(p.text, "https://example.test/docs");
    assert!(scope_link(&parts(Some("sub.example.test"), "/docs"), "example.test").is_none());
    assert!(scope_link(&parts(None, "/docs"), "example.test").is_none());
    let mut odd = parts(Some("example.test"), "/p");
    odd.address = "https://example.test/p?x".to_string();
    assert!(page_of_parts(&odd).is_none());
}

#[test]
fn links_are_resolved_scoped_and_stripped() {
    let base = PageUrl::parse("http://example.test/").unwrap();
    let html = "<a href=\"docs/intro?x=1#part\">a</a><a href=\"https://example.test/abs\">b</a>\
                <a href=\"http://sub.example.test/\">c</a><a href=\"http://other.test/\">d</a><a>no href</a>";
    let links = extract_links(html, "http://example.test/guide/", &base);
    let texts: Vec<&str> = links.iter().map(|l| l.text.as_str()).collect();
    assert_eq!(texts, vec!["http://example.test/guide/docs/intro", "https://example.test/abs"]);
    assert!(extract_links(html, "::bad::", &base).is_empty());
}

#[test]
fn store_overwrites_and_assembles() {
    let base = PageUrl::parse("http://example.test/").unwrap();
    let mut s = ContentStore::new();
    s.store("/b".to_string(), "B".to_string());
    s.store("/".to_string(), "Home".to_string());
    s.store("/b".to_string(), "B2".to_string());
    assert_eq!(s.len(), 2);
    assert_eq!(s.get("/b").unwrap(), "B2");
    assert!(s.get("/c").is_none());
    assert_eq!(s.assemble_document(&base), "# http://example.test/\n\nHome\n\n## /b\n\nB2\n\n");
    let empty = ContentStore::new();
    assert_eq!(empty.assemble_document(&base), "");
}

#[test]
fn clean_markdown_examples() {
    assert_eq!(clean_markdown("a\n\n\n\nb"), "a\n\nb");
    assert_eq!(clean_markdown("x\n```\n```\ny"), "x\n\ny");
    assert_eq!(clean_markdown("a\r\n  \n\t\nb\n"), "a\n  \nb");
    assert_eq!(clean_markdown(""), "");
    assert_eq!(clean_markdown("one line"), "one line");
}

#[test]
fn converter_title_and_metadata() {
    let html = "<html><head><title>My Page</title><meta name=\"author\" content=\"Ann\">\
                <meta name=\"keywords\" content=\"a,b\"><meta property=\"og:x\" content=\"y\"></head></html>";
    assert_eq!(extract_title(html), Some("My Page".to_string()));
    assert_eq!(extract_title("<p>none</p>"), None);
    assert_eq!(
        extract_metadata(html),
        vec![("author".to_string(), "Ann".to_string()), ("keywords".to_string(), "a,b".to_string())]
    );
}

#[test]
fn page_title_and_description() {
    assert_eq!(page_title(""), "Unknown Title");
    assert_eq!(page_title("<p>x</p>"), "Unknown Title");
    assert_eq!(page_title("<title>  Hello  </title>"), "Hello");
    assert_eq!(page_description(""), "No description available");
    assert_eq!(page_description("<meta name=\"description\" content=\" Desc \"><p>para</p>"), "Desc");
    assert_eq!(page_description("<meta name=\"description\" content=\"  \"><p> para </p>"), "para");
    assert_eq!(page_description("<meta property=\"og:description\" content=\"OG\">"), "OG");
    assert_eq!(page_description("<div>nothing</div>"), "No description available");
    let r = page_result("<title>T</title><p>D</p>", "http://example.test/");
    assert_eq!(r.title, "T");
    assert_eq!(r.description, "D");
    assert_eq!(r.url, "http://example.test/");
    assert_eq!(r.content.as_deref(), Some("<title>T</title><p>D</p>"));
}

#[test]
fn model_defaults() {
    assert_eq!(default_search_limit(), 10);
    assert_eq!(default_return_format(), "json");
    assert_eq!(default_crawl_limit(), 1);
    assert_eq!(parse_format("markdown"), ReturnFormat::Markdown);
    assert_eq!(parse_format("json"), ReturnFormat::Json);
    assert_eq!(parse_format("xml"), ReturnFormat::Json);
    assert_eq!(content_limit(0), 1);
    assert_eq!(content_limit(7), 7);
    assert_eq!(crawl_page_cap(0), None);
    assert_eq!(crawl_page_cap(3), Some(3));
    assert!(Crawler::new().headers.is_none());
    let r = SearchResult { title: "t".into(), description: "d".into(), url: "u".into(), content: None };
    let resp = SearchResponse::new(vec![r.duplicate(), r], "q".to_string());
    assert_eq!(resp.count, 2);
    assert_eq!(resp.query, "q");
}

#[test]
fn markdown_listing() {
    let results = vec![
        SearchResult { title: "One".into(), description: "First".into(), url: "http://a.test/".into(), content: None },
        SearchResult { title: "Two".into(), description: "Second".into(), url: "http://b.test/".into(), content: None },
    ];
    assert_eq!(
        search_results_markdown("rust", &results, &vec![None, Some("ignored".to_string())]),
        "# Search Results for \"rust\"\n\n## 1. [One](http://a.test/)\n\nFirst\n\n## 2. [Two](http://b.test/)\n\nSecond\n\n"
    );
    assert_eq!(crawl_results_markdown("http://x.test/", &Vec::new(), &Vec::new()), "# Crawl Results for \"http://x.test/\"\n\n");
    let with_content = vec![
        SearchResult { title: "L".into(), description: "D".into(), url: "u".into(), content: Some("<p>x</p>".into()) },
        SearchResult { title: "M".into(), description: "E".into(), url: "v".into(), content: Some("<p>y</p>".into()) },
    ];
    let md = crawl_results_markdown("u", &with_content, &vec![Some("x".repeat(600)), None]);
    assert!(md.contains(&format!("## 1. [L](u)\n\nD\n\n### Content Preview\n\n{}...\n\n", "x".repeat(497))));
    assert!(md.ends_with("## 2. [M](v)\n\nE\n\n"));
}

#[test]
fn preview_counts_bytes() {
    let r = vec![SearchResult { title: "T".into(), description: "D".into(), url: "u".into(), content: Some("c".into()) }];
    // 496 ASCII bytes then a two-byte character spanning byte 497.
    let md = format!("{}é{}", "a".repeat(496), "b".repeat(10));
    let out = crawl_results_markdown("u", &r, &vec![Some(md)]);
    assert!(out.contains(&format!("Preview\n\n{}...\n\n", "a".repeat(496))));
    // 300 two-byte characters: 600 bytes, cut at 248 characters (496 bytes).
    let wide = "é".repeat(300);
    let out = crawl_results_markdown("u", &r, &vec![Some(wide)]);
    assert!(out.contains(&format!("Preview\n\n{}...\n\n", "é".repeat(248))));
    // 250 two-byte characters: exactly 500 bytes, kept whole.
    let fits = "é".repeat(250);
    let out = crawl_results_markdown("u", &r, &vec![Some(fits.clone())]);
    assert!(out.contains(&format!("Preview\n\n{}\n\n", fits)));
}

#[test]
fn provider_choice_and_labels() {
    assert_eq!(choose_provider(true, true, true), Some(SearchProvider::Google));
    assert_eq!(choose_provider(true, false, true), Some(SearchProvider::Alternative));
    assert_eq!(choose_provider(false, false, false), None);
    assert_eq!(provider_label(Some(SearchProvider::Google)), "Google Custom Search API");
    assert_eq!(provider_label(None), "Simulated Search (demo mode)");
}

#[test]
fn key_masking() {
    assert_eq!(mask_key(&Some("abcdefghijkl".to_string())), "abcd...ijkl");
    assert_eq!(mask_key(&Some("short".to_string())), "Set but too short (check your configuration)");
    assert_eq!(mask_key(&Some("12345678".to_string())), "Set but too short (check your configuration)");
    assert_eq!(mask_key(&None), "Not configured");
}

#[test]
fn search_addresses() {
    assert_eq!(
        google_search_url("KEY", "CX", "rust lang", 25),
        "https://www.googleapis.com/customsearch/v1?key=KEY&cx=CX&q=rust%20lang&num=10"
    );
    assert_eq!(google_search_url("K", "C", "q", 3), "https://www.googleapis.com/customsearch/v1?key=K&cx=C&q=q&num=3");
    assert_eq!(api_search_url("a&b", 5, "K"), "https://api.searchprovider.com/search?q=a%26b&limit=5&api_key=K");
}

#[test]
fn text_helpers() {
    let mut s = String::from("n=");
    push_decimal(&mut s, 0);
    push_decimal(&mut s, 1234567);
    assert_eq!(s, "n=01234567");
    assert!(same_text("abc", "abc"));
    assert!(!same_text("abc", "abd"));
    assert_eq!(trim_string("\u{3000} a b \n"), "a b");
    assert_eq!(trim_string("   "), "");
}
