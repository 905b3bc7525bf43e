//! What a result record shows of a page: its title and a description,
//! read from the page's HTML.
use vstd::prelude::*;
use crate::models::SearchResult;
use crate::text::trim_string;

verus! {

/// The first text node inside the first element that the CSS selector
/// matches, if any.
pub uninterp spec fn first_text_of(html: Seq<char>, selector: Seq<char>) -> Option<Seq<char>>;

/// Relies on scraper (Html::parse_document, Selector::parse, Html::select,
/// ElementRef::text): the first text node of the first element matched by
/// `selector`; `None` where nothing matches, that element holds no text or
/// the selector is invalid.
#[verifier::external_body]
fn first_text(html: &str, selector: &str) -> (r: Option<String>)
    ensures
        r matches Some(t) ==> first_text_of(html@, selector@) == Some(t@),
        r is None ==> first_text_of(html@, selector@) is None,
{
    let doc = scraper::Html::parse_document(html);
    let sel = scraper::Selector::parse(selector).ok()?;
    doc.select(&sel).next().and_then(|e| e.text().next()).map(|t| t.to_string())
}

/// The value of `attr` on the first element that the CSS selector matches,
/// if that element has it.
pub uninterp spec fn first_attr_of(html: Seq<char>, selector: Seq<char>, attr: Seq<char>) -> Option<
    Seq<char>,
>;

/// Relies on scraper (Html::parse_document, Selector::parse, Html::select,
/// ElementRef::attr): the attribute `attr` of the first element matched by
/// `selector`; `None` where nothing matches, the attribute is absent or the
/// selector is invalid.
#[verifier::external_body]
fn first_attr(html: &str, selector: &str, attr: &str) -> (r: Option<String>)
    ensures
        r matches Some(t) ==> first_attr_of(html@, selector@, attr@) == Some(t@),
        r is None ==> first_attr_of(html@, selector@, attr@) is None,
{
    let doc = scraper::Html::parse_document(html);
    let sel = scraper::Selector::parse(selector).ok()?;
    doc.select(&sel).next().and_then(|e| e.attr(attr)).map(|t| t.to_string())
}

/// All text inside the first element that the CSS selector matches, if any.
pub uninterp spec fn all_text_of(html: Seq<char>, selector: Seq<char>) -> Option<Seq<char>>;

/// Relies on scraper (Html::parse_document, Selector::parse, Html::select,
/// ElementRef::text): the text nodes of the first element matched by
/// `selector`, concatenated; `None` where nothing matches or the selector is
/// invalid.
#[verifier::external_body]
pub(crate) fn all_text(html: &str, selector: &str) -> (r: Option<String>)
    ensures
        r matches Some(t) ==> all_text_of(html@, selector@) == Some(t@),
        r is None ==> all_text_of(html@, selector@) is None,
{
    let doc = scraper::Html::parse_document(html);
    let sel = scraper::Selector::parse(selector).ok()?;
    doc.select(&sel).next().map(|e| e.text().collect::<Vec<_>>().join(""))
}

/// The (name, content) pairs of the `meta` elements that carry both.
pub uninterp spec fn meta_pairs_of(html: Seq<char>) -> Seq<(Seq<char>, Seq<char>)>;

/// Relies on scraper (Html::parse_document, Selector::parse, Html::select,
/// ElementRef::attr): the `name` and `content` of each `meta[name][content]`
/// element, in the order `select` yields them; the selector matches only
/// elements with both.
#[verifier::external_body]
pub(crate) fn meta_pairs(html: &str) -> (r: Vec<(String, String)>)
    ensures
        r@.map_values(|p: (String, String)| (p.0@, p.1@)) == meta_pairs_of(html@),
{
    let doc = scraper::Html::parse_document(html);
    let sel = scraper::Selector::parse("meta[name][content]").unwrap();
    doc.select(&sel)
        .map(|e| (e.attr("name").unwrap_or("").to_string(), e.attr("content").unwrap_or("").to_string()))
        .collect()
}

/// Trimmed text, or the fallback where there is none.
pub open spec fn trimmed_or(t: Option<Seq<char>>, fallback: Seq<char>) -> Seq<char> {
    match t {
        Some(x) => crate::text::trim_spec(x),
        None => fallback,
    }
}

/// The title a result shows: the first text of the page's `title`, trimmed;
/// "Unknown Title" for an empty page or one without a title.
pub open spec fn page_title_spec(html: Seq<char>) -> Seq<char> {
    if html.len() == 0 {
        "Unknown Title"@
    } else {
        trimmed_or(first_text_of(html, "title"@), "Unknown Title"@)
    }
}

/// The description a result shows: the page's meta description (or
/// `og:description`), trimmed, where not empty; else the first text of its
/// first paragraph, trimmed; else "No description available".
pub open spec fn page_description_spec(html: Seq<char>) -> Seq<char> {
    if html.len() == 0 {
        "No description available"@
    } else {
        let meta = first_attr_of(
            html,
            "meta[name='description'], meta[property='og:description']"@,
            "content"@,
        );
        if meta is Some && crate::text::trim_spec(meta->0).len() > 0 {
            crate::text::trim_spec(meta->0)
        } else {
            trimmed_or(first_text_of(html, "p"@), "No description available"@)
        }
    }
}

/// The title of a crawled page, as shown in its result record.
pub fn page_title(html: &str) -> (r: String)
    ensures
        r@ == page_title_spec(html@),
{
    if html.is_empty() {
        return String::from_str("Unknown Title");
    }
    match first_text(html, "title") {
        Some(t) => trim_string(t.as_str()),
        None => String::from_str("Unknown Title"),
    }
}

/// The description of a crawled page, as shown in its result record.
pub fn page_description(html: &str) -> (r: String)
    ensures
        r@ == page_description_spec(html@),
{
    if html.is_empty() {
        return String::from_str("No description available");
    }
    match first_attr(html, "meta[name='description'], meta[property='og:description']", "content") {
        Some(d) => {
            let t = trim_string(d.as_str());
            if !t.as_str().is_empty() {
                return t;
            }
        },
        None => {},
    }
    match first_text(html, "p") {
        Some(t) => trim_string(t.as_str()),
        None => String::from_str("No description available"),
    }
}

/// The result record of a crawled page: its title, description, final URL
/// and HTML.
pub fn page_result(html: &str, url: &str) -> (r: SearchResult)
    ensures
        r.title@ == page_title_spec(html@),
        r.description@ == page_description_spec(html@),
        r.url@ == url@,
        r.content matches Some(c) && c@ == html@,
{
    SearchResult {
        title: page_title(html),
        description: page_description(html),
        url: String::from_str(url),
        content: Some(String::from_str(html)),
    }
}

} // verus!
