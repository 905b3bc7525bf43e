//! Page addresses and link extraction: anchors are resolved against the
//! page they appear on, kept only on the crawl's own domain, and stripped of
//! their query and fragment.
use vstd::prelude::*;
use crate::text::{chars_vec, same_text};

verus! {

/// A parsed URL, as plain values.
#[derive(Debug)]
pub struct UrlParts {
    /// The URL's written form up to the end of its path: without query and
    /// fragment.
    pub address: String,
    pub host: Option<String>,
    pub path: String,
    pub query: Option<String>,
    pub fragment: Option<String>,
}

/// A page address on the crawl's domain. `text` is its written form, with
/// no query and no fragment.
#[derive(Debug)]
pub struct PageUrl {
    pub host: String,
    pub path: String,
    pub text: String,
}

/// A written address that holds neither a query nor a fragment marker.
pub open spec fn is_plain_address(t: Seq<char>) -> bool {
    !t.contains('?') && !t.contains('#')
}

impl PageUrl {
    /// The written form carries no query and no fragment.
    pub open spec fn wf(&self) -> bool {
        is_plain_address(self.text@)
    }

    /// A copy of this address.
    pub fn duplicate(&self) -> (r: PageUrl)
        ensures
            page_view(r) == page_view(*self),
    {
        PageUrl { host: self.host.clone(), path: self.path.clone(), text: self.text.clone() }
    }

    /// The address of an absolute URL string, without its query and
    /// fragment; `None` where it does not parse or has no host.
    pub fn parse(s: &str) -> (r: Option<PageUrl>)
        ensures
            match parsed_parts_of(s@) {
                Some(v) => match r {
                    Some(p) => p.wf() && page_view_of(v) == Some(page_view(p)),
                    None => page_view_of(v) is None,
                },
                None => r is None,
            },
    {
        match parse_parts(s) {
            Some(parts) => page_of_parts(&parts),
            None => None,
        }
    }
}

/// A parsed URL as (address, host, path, query, fragment).
pub type PartsView = (Seq<char>, Option<Seq<char>>, Seq<char>, Option<Seq<char>>, Option<Seq<char>>);

pub open spec fn opt_view(o: Option<String>) -> Option<Seq<char>> {
    match o {
        Some(s) => Some(s@),
        None => None,
    }
}

pub open spec fn parts_view(p: UrlParts) -> PartsView {
    (p.address@, opt_view(p.host), p.path@, opt_view(p.query), opt_view(p.fragment))
}

/// An absolute URL as url::Url::parse reads it; `None` where it is
/// malformed.
pub uninterp spec fn parsed_parts_of(s: Seq<char>) -> Option<PartsView>;

/// Relies on url::Url::parse: parses an absolute URL; `None` where it is
/// malformed. The parts are copied out with Url's slicing up to
/// `Position::AfterPath` and its accessors host_str, path, query and
/// fragment.
#[verifier::external_body]
fn parse_parts(s: &str) -> (r: Option<UrlParts>)
    ensures
        match r {
            Some(p) => parsed_parts_of(s@) == Some(parts_view(p)),
            None => parsed_parts_of(s@) is None,
        },
{
    url::Url::parse(s).ok().map(|u| UrlParts {
        address: u[..url::Position::AfterPath].to_string(),
        host: u.host_str().map(|h| h.to_string()),
        path: u.path().to_string(),
        query: u.query().map(|q| q.to_string()),
        fragment: u.fragment().map(|f| f.to_string()),
    })
}

/// `href` resolved against the absolute URL `base` as url::Url::join
/// resolves it; `None` where `base` or the result is malformed.
pub uninterp spec fn joined_parts_of(base: Seq<char>, href: Seq<char>) -> Option<PartsView>;

/// Relies on url::Url::join: resolves `href` against `base` (itself parsed
/// with url::Url::parse); `None` where either is malformed. The parts are
/// copied out as `parse_parts` does.
#[verifier::external_body]
fn join_parts(base: &str, href: &str) -> (r: Option<UrlParts>)
    ensures
        match r {
            Some(p) => joined_parts_of(base@, href@) == Some(parts_view(p)),
            None => joined_parts_of(base@, href@) is None,
        },
{
    url::Url::parse(base).ok()?.join(href).ok().map(|u| UrlParts {
        address: u[..url::Position::AfterPath].to_string(),
        host: u.host_str().map(|h| h.to_string()),
        path: u.path().to_string(),
        query: u.query().map(|q| q.to_string()),
        fragment: u.fragment().map(|f| f.to_string()),
    })
}

/// The values of the `href` attributes of an HTML document's anchors, in
/// the order in which scraper's `select` yields the anchors.
pub uninterp spec fn anchor_hrefs_of(html: Seq<char>) -> Seq<Seq<char>>;

/// Relies on scraper (Html::parse_document, Selector::parse, Html::select,
/// ElementRef::attr): the `href` of every `a[href]` element, in the order
/// `select` yields them; the selector matches only anchors that carry the
/// attribute.
#[verifier::external_body]
fn anchor_hrefs(html: &str) -> (r: Vec<String>)
    ensures
        r@.map_values(|h: String| h@) == anchor_hrefs_of(html@),
{
    let doc = scraper::Html::parse_document(html);
    let sel = scraper::Selector::parse("a[href]").unwrap();
    doc.select(&sel).map(|e| e.attr("href").unwrap_or("").to_string()).collect()
}

/// A page address as (host, path, text).
pub type PageView = (Seq<char>, Seq<char>, Seq<char>);

pub open spec fn page_view(p: PageUrl) -> PageView {
    (p.host@, p.path@, p.text@)
}

/// The page address of a parsed URL: `None` without a host, or where its
/// address would still hold a query or fragment marker.
pub open spec fn page_view_of(v: PartsView) -> Option<PageView> {
    match v.1 {
        Some(h) => if is_plain_address(v.0) {
            Some((h, v.2, v.0))
        } else {
            None
        },
        None => None,
    }
}

/// The page addresses of the links with these `href` values on the page at
/// `current`, that resolve and are on `host`, in order.
pub open spec fn scoped_links(hrefs: Seq<Seq<char>>, current: Seq<char>, host: Seq<char>) -> Seq<PageView>
    decreases hrefs.len(),
{
    if hrefs.len() == 0 {
        Seq::<PageView>::empty()
    } else {
        scoped_links(hrefs.drop_last(), current, host) + match joined_parts_of(current, hrefs.last()) {
            Some(v) => match page_view_of(v) {
                Some(pv) => if pv.0 == host {
                    seq![pv]
                } else {
                    Seq::<PageView>::empty()
                },
                None => Seq::<PageView>::empty(),
            },
            None => Seq::<PageView>::empty(),
        }
    }
}

/// Whether `t` holds neither `?` nor `#`.
pub fn plain_address(t: &str) -> (r: bool)
    ensures
        r == is_plain_address(t@),
{
    let v = chars_vec(t);
    let mut i: usize = 0;
    while i < v.len()
        invariant
            v@ == t@,
            i <= v@.len(),
            forall|k: int| 0 <= k < i ==> v@[k] != '?' && v@[k] != '#',
        decreases v@.len() - i,
    {
        if v[i] == '?' || v[i] == '#' {
            assert(v@[i as int] == '?' ==> t@.contains('?'));
            assert(v@[i as int] == '#' ==> t@.contains('#'));
            return false;
        }
        i = i + 1;
    }
    true
}

/// The page address of a parsed URL: its address, host and path; `None`
/// without a host, or where the address holds a query or fragment marker.
pub fn page_of_parts(parts: &UrlParts) -> (r: Option<PageUrl>)
    ensures
        match r {
            Some(p) => p.wf() && page_view_of(parts_view(*parts)) == Some(page_view(p)),
            None => page_view_of(parts_view(*parts)) is None,
        },
{
    match &parts.host {
        Some(h) => {
            if plain_address(parts.address.as_str()) {
                Some(PageUrl { host: h.clone(), path: parts.path.clone(), text: parts.address.clone() })
            } else {
                None
            }
        },
        None => None,
    }
}

/// Keeps a resolved link only where its host is exactly `base_host`
/// (subdomains are other domains), as a page address without query and
/// fragment.
pub fn scope_link(parts: &UrlParts, base_host: &str) -> (r: Option<PageUrl>)
    ensures
        match page_view_of(parts_view(*parts)) {
            Some(pv) => if pv.0 == base_host@ {
                r matches Some(p) && p.wf() && page_view(p) == pv
            } else {
                r is None
            },
            None => r is None,
        },
{
    match page_of_parts(parts) {
        Some(p) => {
            if same_text(p.host.as_str(), base_host) {
                Some(p)
            } else {
                None
            }
        },
        None => None,
    }
}

/// The links of an HTML page that stay on the base address's domain,
/// resolved against `current_url` and stripped of query and fragment, in
/// the order scraper yields the anchors. Anchors that do not resolve are
/// skipped.
pub fn extract_links(html: &str, current_url: &str, base: &PageUrl) -> (r: Vec<PageUrl>)
    ensures
        r@.map_values(|p: PageUrl| page_view(p)) == scoped_links(anchor_hrefs_of(html@), current_url@, base.host@),
        forall|i: int| 0 <= i < r@.len() ==> (#[trigger] r@[i]).wf() && r@[i].host@ == base.host@,
{
    let hrefs = anchor_hrefs(html);
    let ghost hv = anchor_hrefs_of(html@);
    let mut out: Vec<PageUrl> = Vec::new();
    let mut i: usize = 0;
    while i < hrefs.len()
        invariant
            i <= hrefs@.len(),
            hrefs@.map_values(|h: String| h@) == hv,
            hv == anchor_hrefs_of(html@),
            out@.map_values(|p: PageUrl| page_view(p)) == scoped_links(hv.take(i as int), current_url@, base.host@),
            forall|k: int| 0 <= k < out@.len() ==> (#[trigger] out@[k]).wf() && out@[k].host@ == base.host@,
        decreases hrefs@.len() - i,
    {
        let ghost before = out@.map_values(|p: PageUrl| page_view(p));
        assert(hv.take(i as int + 1).drop_last() =~= hv.take(i as int));
        assert(hv.take(i as int + 1).last() == hrefs@[i as int]@);
        match join_parts(current_url, hrefs[i].as_str()) {
            Some(parts) => {
                match scope_link(&parts, base.host.as_str()) {
                    Some(p) => {
                        let ghost pv = page_view(p);
                        out.push(p);
                        assert(out@.map_values(|p: PageUrl| page_view(p)) =~= before.push(pv));
                    },
                    None => {
                        assert(before + Seq::<PageView>::empty() =~= before);
                    },
                }
            },
            None => {
                assert(before + Seq::<PageView>::empty() =~= before);
            },
        }
        i = i + 1;
    }
    assert(hv.take(hv.len() as int) =~= hv);
    out
}

} // verus!
