//! The crawler that the service's endpoints use, and the work of one fetch
//! task on a fetched page.
use vstd::prelude::*;
use std::collections::HashMap;
use crate::converter::{clean_markdown, clean_spec};
use crate::engine::PageContent;
use crate::links::{anchor_hrefs_of, extract_links, page_view, scoped_links, PageUrl};

verus! {

/// Settings of a crawl requested through the service.
pub struct Crawler {
    /// Custom headers to add to requests.
    pub headers: Option<HashMap<String, String>>,
}

impl Default for Crawler {
    fn default() -> (r: Crawler)
        ensures
            r.headers is None,
    {
        Crawler { headers: None }
    }
}

impl Crawler {
    /// A crawler without custom headers.
    pub fn new() -> (r: Crawler)
        ensures
            r.headers is None,
    {
        Crawler::default()
    }
}

/// The work of a fetch task on a fetched page: its in-scope links are
/// extracted, then `converted`, the page's Markdown as converted from its
/// HTML, is tidied.
pub fn process_page(html: &str, page_url: &str, base: &PageUrl, converted: &str) -> (r: PageContent)
    ensures
        r.markdown@ == clean_spec(converted@),
        forall|i: int| 0 <= i < r.links@.len() ==> (#[trigger] r.links@[i]).wf() && r.links@[i].host@ == base.host@,
        r.links@.map_values(|p: PageUrl| page_view(p)) == scoped_links(anchor_hrefs_of(html@), page_url@, base.host@),
{
    let links = extract_links(html, page_url, base);
    let markdown = clean_markdown(converted);
    PageContent { markdown, links }
}

} // verus!
