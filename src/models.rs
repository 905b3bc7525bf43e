//! Request and result records exchanged with the service's callers.
use vstd::prelude::*;
use std::collections::HashMap;

verus! {

/// A search request.
#[derive(Debug)]
pub struct SearchRequest {
    /// The search query to execute.
    pub search: String,
    /// Pages to crawl per result when content is fetched (0 stands for 1).
    pub limit: usize,
    /// Number of top results to return.
    pub search_limit: usize,
    /// Output format ("markdown", "json"; anything else is JSON).
    pub return_format: String,
    /// Whether to crawl each result for its content.
    pub fetch_page_content: bool,
    /// Whether data may be cached for reuse.
    pub store_data: bool,
    /// Custom headers to add to requests.
    pub headers: Option<HashMap<String, String>>,
}

/// One search or crawl result.
#[derive(Debug)]
pub struct SearchResult {
    pub title: String,
    pub description: String,
    pub url: String,
    /// The page's HTML, where it was fetched.
    pub content: Option<String>,
}

/// The answer to a search request in JSON form.
#[derive(Debug)]
pub struct SearchResponse {
    pub results: Vec<SearchResult>,
    pub query: String,
    pub count: usize,
}

/// A crawl request.
#[derive(Debug)]
pub struct CrawlRequest {
    /// The URL to crawl.
    pub url: String,
    /// Maximum number of pages to crawl (0: no cap).
    pub limit: usize,
    /// Output format ("markdown", "json").
    pub format: String,
    /// Custom headers to add to requests.
    pub headers: Option<HashMap<String, String>>,
}

/// How a response is rendered.
#[derive(Clone, Copy, Debug, PartialEq, Eq, Structural)]
pub enum ReturnFormat {
    Json,
    Markdown,
}

/// The number of search results asked for when a request names none.
pub fn default_search_limit() -> (r: usize)
    ensures
        r == 10,
{
    10
}

/// The output format used when a request names none.
pub fn default_return_format() -> (r: String)
    ensures
        r@ == "json"@,
{
    String::from_str("json")
}

/// The number of pages crawled when a crawl request names none.
pub fn default_crawl_limit() -> (r: usize)
    ensures
        r == 1,
{
    1
}

/// The output format a request names: Markdown for "markdown", JSON for
/// anything else.
pub fn parse_format(name: &str) -> (r: ReturnFormat)
    ensures
        r == (if name@ == "markdown"@ { ReturnFormat::Markdown } else { ReturnFormat::Json }),
{
    if crate::text::same_text(name, "markdown") {
        ReturnFormat::Markdown
    } else {
        ReturnFormat::Json
    }
}

/// The crawl limit used when fetching result content: a limit of 0 stands
/// for 1.
pub fn content_limit(limit: usize) -> (r: usize)
    ensures
        r == (if limit == 0 { 1 } else { limit }),
{
    if limit == 0 { 1 } else { limit }
}

/// The page cap of a crawl request: a limit of 0 crawls without a cap.
pub fn crawl_page_cap(limit: usize) -> (r: Option<usize>)
    ensures
        r == (if limit == 0 { None } else { Some(limit) }),
{
    if limit == 0 { None } else { Some(limit) }
}

impl SearchResult {
    /// A copy of this result.
    pub fn duplicate(&self) -> (r: SearchResult)
        ensures
            r.title@ == self.title@,
            r.description@ == self.description@,
            r.url@ == self.url@,
            r.content matches Some(c) <==> self.content is Some,
            r.content matches Some(c) ==> c@ == self.content->0@,
    {
        SearchResult {
            title: self.title.clone(),
            description: self.description.clone(),
            url: self.url.clone(),
            content: match &self.content {
                Some(c) => Some(c.clone()),
                None => None,
            },
        }
    }
}

impl SearchResponse {
    /// The response for `query` with these results; `count` is their number.
    pub fn new(results: Vec<SearchResult>, query: String) -> (r: SearchResponse)
        ensures
            r.results@ == results@,
            r.query@ == query@,
            r.count == results@.len(),
    {
        let count = results.len();
        SearchResponse { results, query, count }
    }
}

} // verus!
