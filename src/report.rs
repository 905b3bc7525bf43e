//! What the service answers besides crawled documents: Markdown listings of
//! results, the choice of search provider, search request addresses and the
//! masking of configured keys.
use vstd::prelude::*;
use crate::models::SearchResult;
use crate::text::{chars_vec, decimal, push_decimal, string_of_chars};

verus! {

/// A result as (title, description, url, content).
pub type ResultView = (Seq<char>, Seq<char>, Seq<char>, Option<Seq<char>>);

pub open spec fn result_view(r: SearchResult) -> ResultView {
    (r.title@, r.description@, r.url@, match r.content {
        Some(c) => Some(c@),
        None => None,
    })
}

/// The number of bytes `c` takes in UTF-8.
pub open spec fn utf8_width(c: char) -> nat {
    if c <= '\u{7F}' {
        1
    } else if c <= '\u{7FF}' {
        2
    } else if c <= '\u{FFFF}' {
        3
    } else {
        4
    }
}

/// The number of bytes `s` takes in UTF-8.
pub open spec fn utf8_len(s: Seq<char>) -> nat
    decreases s.len(),
{
    if s.len() == 0 {
        0
    } else {
        utf8_len(s.drop_last()) + utf8_width(s.last())
    }
}

/// How many leading characters of `s` fit in `budget` bytes of UTF-8.
pub open spec fn fitting_chars(s: Seq<char>, budget: nat) -> nat
    decreases s.len(),
{
    if s.len() == 0 {
        0
    } else if utf8_width(s[0]) <= budget {
        1 + fitting_chars(s.skip(1), (budget - utf8_width(s[0])) as nat)
    } else {
        0
    }
}

/// A Markdown preview: a text of more than 500 bytes keeps its first 497
/// bytes followed by "..."; where byte 497 falls inside a character, the
/// cut falls before that character.
pub open spec fn preview_spec(md: Seq<char>) -> Seq<char> {
    if utf8_len(md) > 500 {
        md.take(fitting_chars(md, 497) as int) + "..."@
    } else {
        md
    }
}

/// The listing entry of the result numbered `n`; `md` is the Markdown of
/// its content, where that content was converted.
pub open spec fn result_section(n: nat, r: ResultView, md: Option<Seq<char>>) -> Seq<char> {
    "## "@ + decimal(n) + ". ["@ + r.0 + "]("@ + r.2 + ")\n\n"@ + r.1 + "\n\n"@ + if r.3 is Some
        && md is Some {
        "### Content Preview\n\n"@ + preview_spec(md->0) + "\n\n"@
    } else {
        Seq::<char>::empty()
    }
}

/// The entries of all results, numbered from 1.
pub open spec fn result_sections(rs: Seq<ResultView>, mds: Seq<Option<Seq<char>>>) -> Seq<char>
    decreases rs.len(),
{
    if rs.len() == 0 {
        Seq::<char>::empty()
    } else {
        result_sections(rs.drop_last(), mds) + result_section(rs.len(), rs.last(), mds[rs.len() - 1])
    }
}

/// A Markdown listing: a heading naming the subject, then each result.
pub open spec fn listing_spec(
    heading: Seq<char>,
    subject: Seq<char>,
    rs: Seq<ResultView>,
    mds: Seq<Option<Seq<char>>>,
) -> Seq<char> {
    "# "@ + heading + " \""@ + subject + "\"\n\n"@ + result_sections(rs, mds)
}

/// The converted Markdown of each result, as character sequences.
pub open spec fn markdown_views(v: Seq<Option<String>>) -> Seq<Option<Seq<char>>> {
    v.map_values(|o: Option<String>| crate::links::opt_view(o))
}

fn utf8_width_exec(c: char) -> (r: usize)
    ensures
        r == utf8_width(c),
{
    if c <= '\u{7F}' {
        1
    } else if c <= '\u{7FF}' {
        2
    } else if c <= '\u{FFFF}' {
        3
    } else {
        4
    }
}

proof fn lemma_utf8_len_prefix(s: Seq<char>, i: int)
    requires
        0 <= i <= s.len(),
    ensures
        utf8_len(s.take(i)) <= utf8_len(s),
    decreases s.len(),
{
    if i < s.len() {
        lemma_utf8_len_prefix(s.drop_last(), i);
        assert(s.drop_last().take(i) =~= s.take(i));
    } else {
        assert(s.take(i) =~= s);
    }
}

/// Whether `v` takes more than `limit` bytes in UTF-8.
fn utf8_longer_than(v: &Vec<char>, limit: usize) -> (r: bool)
    requires
        limit <= 1000,
    ensures
        r == (utf8_len(v@) > limit),
{
    let mut total: usize = 0;
    let mut i: usize = 0;
    while i < v.len()
        invariant
            i <= v@.len(),
            total == utf8_len(v@.take(i as int)),
            total <= limit,
            limit <= 1000,
        decreases v@.len() - i,
    {
        assert(v@.take(i as int + 1).drop_last() =~= v@.take(i as int));
        total = total + utf8_width_exec(v[i]);
        i = i + 1;
        if total > limit {
            proof {
                lemma_utf8_len_prefix(v@, i as int);
            }
            return true;
        }
    }
    assert(v@.take(v@.len() as int) =~= v@);
    false
}

fn preview(md: &str) -> (r: String)
    ensures
        r@ == preview_spec(md@),
{
    let v = chars_vec(md);
    if !utf8_longer_than(&v, 500) {
        return String::from_str(md);
    }
    let mut head: Vec<char> = Vec::new();
    let mut used: usize = 0;
    let mut i: usize = 0;
    assert(v@.skip(0) =~= v@);
    while i < v.len() && utf8_width_exec(v[i]) <= 497 - used
        invariant
            i <= v@.len(),
            used <= 497,
            head@ == v@.take(i as int),
            fitting_chars(v@, 497) == i + fitting_chars(v@.skip(i as int), (497 - used) as nat),
        decreases v@.len() - i,
    {
        assert(v@.skip(i as int)[0] == v@[i as int]);
        assert(v@.skip(i as int).skip(1) =~= v@.skip(i as int + 1));
        head.push(v[i]);
        assert(head@ =~= v@.take(i as int + 1));
        used = used + utf8_width_exec(v[i]);
        i = i + 1;
    }
    proof {
        if i < v@.len() {
            assert(v@.skip(i as int)[0] == v@[i as int]);
        } else {
            assert(v@.skip(i as int).len() == 0);
        }
    }
    let mut r = string_of_chars(&head);
    r.append("...");
    r
}

/// The listing entry of result `r`, numbered `n`, with `md` the Markdown of
/// its content.
fn result_entry(n: usize, r: &SearchResult, md: &Option<String>) -> (e: String)
    ensures
        e@ == result_section(n as nat, result_view(*r), crate::links::opt_view(*md)),
{
    proof {
        reveal_strlit("## ");
        reveal_strlit(". [");
        reveal_strlit("](");
        reveal_strlit(")\n\n");
        reveal_strlit("\n\n");
        reveal_strlit("### Content Preview\n\n");
    }
    let mut out = String::from_str("## ");
    push_decimal(&mut out, n as u64);
    out.append(". [");
    out.append(r.title.as_str());
    out.append("](");
    out.append(r.url.as_str());
    out.append(")\n\n");
    out.append(r.description.as_str());
    out.append("\n\n");
    if r.content.is_some() {
        match md {
            Some(m) => {
                let p = preview(m.as_str());
                out.append("### Content Preview\n\n");
                out.append(p.as_str());
                out.append("\n\n");
            },
            None => {},
        }
    }
    assert(out@ =~= result_section(n as nat, result_view(*r), crate::links::opt_view(*md)));
    out
}

/// Lists results in Markdown under "# {heading} \"{subject}\"": each result
/// gets a numbered second-level heading linking its title to its URL, its
/// description, and, where it carries content, a preview of that content's
/// Markdown. `converted[i]` is the Markdown of `results[i]`'s content, where
/// its conversion succeeded.
pub fn results_markdown(
    heading: &str,
    subject: &str,
    results: &Vec<SearchResult>,
    converted: &Vec<Option<String>>,
) -> (r: String)
    requires
        converted@.len() == results@.len(),
    ensures
        r@ == listing_spec(
            heading@,
            subject@,
            results@.map_values(|x: SearchResult| result_view(x)),
            markdown_views(converted@),
        ),
{
    let ghost rs = results@.map_values(|x: SearchResult| result_view(x));
    let ghost mds = markdown_views(converted@);
    proof {
        reveal_strlit("# ");
        reveal_strlit(" \"");
        reveal_strlit("\"\n\n");
    }
    let mut out = String::from_str("# ");
    out.append(heading);
    out.append(" \"");
    out.append(subject);
    out.append("\"\n\n");
    let ghost head = out@;
    assert(rs.take(0) =~= Seq::<ResultView>::empty());
    let mut i: usize = 0;
    while i < results.len()
        invariant
            i <= results@.len(),
            converted@.len() == results@.len(),
            rs == results@.map_values(|x: SearchResult| result_view(x)),
            mds == markdown_views(converted@),
            out@ == head + result_sections(rs.take(i as int), mds),
            head == "# "@ + heading@ + " \""@ + subject@ + "\"\n\n"@,
        decreases results@.len() - i,
    {
        let ghost before = out@;
        let r = &results[i];
        assert(rs.take(i as int + 1).drop_last() =~= rs.take(i as int));
        assert(rs.take(i as int + 1).last() == result_view(*r));
        assert(mds[i as int] == crate::links::opt_view(converted@[i as int]));
        let entry = result_entry(i + 1, r, &converted[i]);
        out.append(entry.as_str());
        i = i + 1;
    }
    assert(rs.take(results@.len() as int) =~= rs);
    out
}

/// Lists search results for `query` in Markdown.
pub fn search_results_markdown(query: &str, results: &Vec<SearchResult>, converted: &Vec<Option<String>>) -> (r:
    String)
    requires
        converted@.len() == results@.len(),
    ensures
        r@ == listing_spec(
            "Search Results for"@,
            query@,
            results@.map_values(|x: SearchResult| result_view(x)),
            markdown_views(converted@),
        ),
{
    results_markdown("Search Results for", query, results, converted)
}

/// Lists crawl results for `url` in Markdown.
pub fn crawl_results_markdown(url: &str, results: &Vec<SearchResult>, converted: &Vec<Option<String>>) -> (r:
    String)
    requires
        converted@.len() == results@.len(),
    ensures
        r@ == listing_spec(
            "Crawl Results for"@,
            url@,
            results@.map_values(|x: SearchResult| result_view(x)),
            markdown_views(converted@),
        ),
{
    results_markdown("Crawl Results for", url, results, converted)
}

/// A configured search API.
#[derive(Clone, Copy, Debug, PartialEq, Eq, Structural)]
pub enum SearchProvider {
    /// Google Custom Search: needs an API key and a search engine id.
    Google,
    /// The alternative search API: needs its own API key.
    Alternative,
}

/// The provider a search goes to: Google where both of its credentials are
/// set, else the alternative API where its key is set, else none.
pub fn choose_provider(has_google_key: bool, has_google_cx: bool, has_api_key: bool) -> (r: Option<
    SearchProvider,
>)
    ensures
        r == (if has_google_key && has_google_cx {
            Some(SearchProvider::Google)
        } else if has_api_key {
            Some(SearchProvider::Alternative)
        } else {
            None
        }),
{
    if has_google_key && has_google_cx {
        Some(SearchProvider::Google)
    } else if has_api_key {
        Some(SearchProvider::Alternative)
    } else {
        None
    }
}

/// The label of each provider choice.
pub open spec fn provider_label_spec(p: Option<SearchProvider>) -> Seq<char> {
    match p {
        Some(SearchProvider::Google) => "Google Custom Search API"@,
        Some(SearchProvider::Alternative) => "Alternative Search API"@,
        None => "Simulated Search (demo mode)"@,
    }
}

/// How the configuration report names the chosen provider.
pub fn provider_label(p: Option<SearchProvider>) -> (r: &'static str)
    ensures
        r@ == provider_label_spec(p),
{
    match p {
        Some(SearchProvider::Google) => "Google Custom Search API",
        Some(SearchProvider::Alternative) => "Alternative Search API",
        None => "Simulated Search (demo mode)",
    }
}

/// A key's masked form: first and last four characters of a long key.
pub open spec fn mask_key_spec(key: Option<Seq<char>>) -> Seq<char> {
    match key {
        Some(k) => if k.len() > 8 {
            k.take(4) + "..."@ + k.skip(k.len() - 4)
        } else {
            "Set but too short (check your configuration)"@
        },
        None => "Not configured"@,
    }
}

/// A configured key as the configuration report shows it: its first and
/// last four characters around "...", where it is longer than eight.
pub fn mask_key(key: &Option<String>) -> (r: String)
    ensures
        r@ == mask_key_spec(match key {
            Some(k) => Some(k@),
            None => None,
        }),
{
    match key {
        Some(k) => {
            let v = chars_vec(k.as_str());
            if v.len() > 8 {
                let n = v.len();
                let mut out: Vec<char> = Vec::new();
                out.push(v[0]);
                out.push(v[1]);
                out.push(v[2]);
                out.push(v[3]);
                out.push('.');
                out.push('.');
                out.push('.');
                out.push(v[n - 4]);
                out.push(v[n - 3]);
                out.push(v[n - 2]);
                out.push(v[n - 1]);
                proof {
                    reveal_strlit("...");
                }
                assert(out@ =~= v@.take(4) + "..."@ + v@.skip(n - 4));
                string_of_chars(&out)
            } else {
                String::from_str("Set but too short (check your configuration)")
            }
        },
        None => String::from_str("Not configured"),
    }
}

/// The percent-encoding of `s` as urlencoding::encode produces it.
pub uninterp spec fn url_encoded_of(s: Seq<char>) -> Seq<char>;

/// Characters that percent-encoding leaves as they are.
pub open spec fn is_unreserved(c: char) -> bool {
    ('a' <= c && c <= 'z') || ('A' <= c && c <= 'Z') || ('0' <= c && c <= '9') || c == '-' || c
        == '_' || c == '.' || c == '~'
}

/// Relies on urlencoding::encode: percent-encodes every byte but ASCII
/// letters, digits and `-`, `_`, `.`, `~`, so a text of those alone is
/// unchanged.
#[verifier::external_body]
fn url_encode(s: &str) -> (r: String)
    ensures
        r@ == url_encoded_of(s@),
        (forall|i: int| 0 <= i < s@.len() ==> is_unreserved(#[trigger] s@[i])) ==> r@ == s@,
{
    urlencoding::encode(s).into_owned()
}

/// The address of a Google Custom Search request; at most ten results are
/// asked for.
pub fn google_search_url(api_key: &str, cx: &str, query: &str, limit: usize) -> (r: String)
    ensures
        r@ == "https://www.googleapis.com/customsearch/v1?key="@ + api_key@ + "&cx="@ + cx@ + "&q="@
            + url_encoded_of(query@) + "&num="@ + decimal(if limit < 10 { limit as nat } else { 10 }),
{
    let q = url_encode(query);
    let mut s = String::from_str("https://www.googleapis.com/customsearch/v1?key=");
    s.append(api_key);
    s.append("&cx=");
    s.append(cx);
    s.append("&q=");
    s.append(q.as_str());
    s.append("&num=");
    let n: usize = if limit < 10 { limit } else { 10 };
    push_decimal(&mut s, n as u64);
    proof {
        reveal_strlit("&cx=");
        reveal_strlit("&q=");
        reveal_strlit("&num=");
    }
    s
}

/// The address of a request to the alternative search API.
pub fn api_search_url(query: &str, limit: usize, api_key: &str) -> (r: String)
    ensures
        r@ == "https://api.searchprovider.com/search?q="@ + url_encoded_of(query@) + "&limit="@ + decimal(
            limit as nat,
        ) + "&api_key="@ + api_key@,
{
    let q = url_encode(query);
    let mut s = String::from_str("https://api.searchprovider.com/search?q=");
    s.append(q.as_str());
    s.append("&limit=");
    push_decimal(&mut s, limit as u64);
    s.append("&api_key=");
    s.append(api_key);
    proof {
        reveal_strlit("&limit=");
        reveal_strlit("&api_key=");
    }
    s
}

} // verus!
