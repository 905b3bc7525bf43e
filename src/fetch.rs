//! Fetch-strategy selection: when to use a plain HTTP fetch, when a
//! headless-browser render, and how a static response is judged.
//!
//! The network work itself is done by the caller; this module decides each
//! next step from the outcome of the previous one.
use vstd::prelude::*;
use crate::text::{chars_vec, contains_chars, contains_seq, decimal, push_decimal};

verus! {

/// Why one page could not be fetched.
#[derive(Debug)]
pub enum FetchError {
    /// The server answered `url` with a non-success status code; `reason`
    /// is the status's canonical reason phrase.
    HttpStatus { url: String, status: u16, reason: String },
    /// The response was not `text/html`; holds the content type received.
    UnsupportedContentType(String),
    /// The browser session could not be set up or could not navigate.
    RenderSession(String),
    /// The request itself failed (connection, timeout, body read).
    Transport(String),
    /// The page could not be converted to Markdown.
    Conversion(String),
}

/// A human-readable description of a fetch failure.
pub open spec fn error_text(e: FetchError) -> Seq<char> {
    match e {
        FetchError::HttpStatus { url, status, reason } => "HTTP error when fetching "@ + url@ + ": "@
            + decimal(status as nat) + " ("@ + reason@ + ")"@,
        FetchError::UnsupportedContentType(ct) => "Non-HTML content type: "@ + ct@,
        FetchError::RenderSession(m) => "Render session failed: "@ + m@,
        FetchError::Transport(m) => "Request failed: "@ + m@,
        FetchError::Conversion(m) => "Conversion to Markdown failed: "@ + m@,
    }
}

impl FetchError {
    /// The description carried by the `Error` event of a failed page.
    pub fn describe(&self) -> (r: String)
        ensures
            r@ == error_text(*self),
    {
        match self {
            FetchError::HttpStatus { url, status, reason } => {
                let mut s = String::from_str("HTTP error when fetching ");
                s.append(url.as_str());
                s.append(": ");
                push_decimal(&mut s, *status as u64);
                s.append(" (");
                s.append(reason.as_str());
                s.append(")");
                proof {
                    reveal_strlit(": ");
                    reveal_strlit(" (");
                    reveal_strlit(")");
                }
                s
            },
            FetchError::UnsupportedContentType(ct) => {
                String::from_str("Non-HTML content type: ").concat(ct.as_str())
            },
            FetchError::RenderSession(m) => {
                String::from_str("Render session failed: ").concat(m.as_str())
            },
            FetchError::Transport(m) => {
                String::from_str("Request failed: ").concat(m.as_str())
            },
            FetchError::Conversion(m) => {
                String::from_str("Conversion to Markdown failed: ").concat(m.as_str())
            },
        }
    }
}

/// The markup holds a sign of a client-side-rendered application: an event
/// listener bootstrap, direct DOM lookup, React, Angular or Vue markers.
pub open spec fn has_render_marker_spec(html: Seq<char>) -> bool {
    contains_seq(html, "window.addEventListener"@)
        || contains_seq(html, "document.getElementById"@)
        || contains_seq(html, "ReactDOM"@)
        || contains_seq(html, "ng-app"@)
        || contains_seq(html, "v-app"@)
}

/// Whether a statically fetched page looks like it needs rendering.
pub fn has_render_marker(html: &str) -> (r: bool)
    ensures
        r == has_render_marker_spec(html@),
{
    let v = chars_vec(html);
    contains_chars(&v, "window.addEventListener")
        || contains_chars(&v, "document.getElementById")
        || contains_chars(&v, "ReactDOM")
        || contains_chars(&v, "ng-app")
        || contains_chars(&v, "v-app")
}

/// A status code in the 2xx range.
pub open spec fn is_success_status(status: u16) -> bool {
    200 <= status && status <= 299
}

/// Judges the head of a static HTTP response from `url`, before its body
/// is read: a non-success status fails first, then a content type that is
/// not `text/html`.
pub fn check_static_response(url: &str, status: u16, reason: &str, content_type: &str) -> (r: Result<
    (),
    FetchError,
>)
    ensures
        !is_success_status(status) ==> (match r {
            Err(FetchError::HttpStatus { url: u, status: s, reason: m }) => u@ == url@ && s == status
                && m@ == reason@,
            _ => false,
        }),
        is_success_status(status) && !contains_seq(content_type@, "text/html"@) ==> (match r {
            Err(FetchError::UnsupportedContentType(ct)) => ct@ == content_type@,
            _ => false,
        }),
        is_success_status(status) && contains_seq(content_type@, "text/html"@) ==> r is Ok,
{
    if status < 200 || status > 299 {
        return Err(
            FetchError::HttpStatus {
                url: String::from_str(url),
                status,
                reason: String::from_str(reason),
            },
        );
    }
    let ct = chars_vec(content_type);
    if !contains_chars(&ct, "text/html") {
        return Err(FetchError::UnsupportedContentType(String::from_str(content_type)));
    }
    Ok(())
}

/// The next thing to do while fetching one page.
#[derive(Debug)]
pub enum FetchStep {
    /// Perform a plain HTTP fetch and report it with `after_static`.
    Static,
    /// Perform a headless-browser render and report it with `after_render`.
    Render,
    /// Fetching is over, with this outcome.
    Done(Result<String, FetchError>),
}

/// The first step: a forced render skips the static fetch.
pub open spec fn first_step_spec(force_render: bool) -> FetchStep {
    if force_render { FetchStep::Render } else { FetchStep::Static }
}

/// After a static fetch: keep its page unless it failed or shows a
/// client-rendering marker, in which case render instead.
pub open spec fn after_static_spec(outcome: Result<String, FetchError>) -> FetchStep {
    match outcome {
        Ok(html) => if has_render_marker_spec(html@) { FetchStep::Render } else { FetchStep::Done(Ok(html)) },
        Err(_) => FetchStep::Render,
    }
}

/// After a render: its outcome, success or failure, is final.
pub open spec fn after_render_spec(outcome: Result<String, FetchError>) -> FetchStep {
    FetchStep::Done(outcome)
}

/// The first step of fetching a page: straight to rendering when forced.
pub fn first_step(force_render: bool) -> (r: FetchStep)
    ensures
        r == first_step_spec(force_render),
{
    if force_render { FetchStep::Render } else { FetchStep::Static }
}

/// The step that follows a static fetch with this outcome.
pub fn after_static(outcome: Result<String, FetchError>) -> (r: FetchStep)
    ensures
        r == after_static_spec(outcome),
{
    match outcome {
        Ok(html) => {
            if has_render_marker(html.as_str()) {
                FetchStep::Render
            } else {
                FetchStep::Done(Ok(html))
            }
        },
        Err(_) => FetchStep::Render,
    }
}

/// The step that follows a render with this outcome.
pub fn after_render(outcome: Result<String, FetchError>) -> (r: FetchStep)
    ensures
        r == after_render_spec(outcome),
{
    FetchStep::Done(outcome)
}

/// The steps taken when fetching one page, given what the static fetch and
/// the render would return: each step is followed until `Done`.
pub open spec fn fetch_run(
    force_render: bool,
    static_outcome: Result<String, FetchError>,
    render_outcome: Result<String, FetchError>,
) -> Seq<FetchStep> {
    let s1 = first_step_spec(force_render);
    if s1 is Render {
        seq![s1, after_render_spec(render_outcome)]
    } else {
        let s2 = after_static_spec(static_outcome);
        if s2 is Render {
            seq![s1, s2, after_render_spec(render_outcome)]
        } else {
            seq![s1, s2]
        }
    }
}

/// How many renders a run of steps performs.
pub open spec fn render_count(steps: Seq<FetchStep>) -> nat
    decreases steps.len(),
{
    if steps.len() == 0 {
        0
    } else {
        render_count(steps.drop_last()) + if steps.last() is Render { 1nat } else { 0nat }
    }
}

/// When the static fetch fails, or returns a page with a client-rendering
/// marker, the page is rendered exactly once and the render's outcome is
/// the result.
pub proof fn lemma_fallback_renders_once(
    static_outcome: Result<String, FetchError>,
    render_outcome: Result<String, FetchError>,
)
    requires
        match static_outcome {
            Ok(html) => has_render_marker_spec(html@),
            Err(_) => true,
        },
    ensures
        render_count(fetch_run(false, static_outcome, render_outcome)) == 1,
        fetch_run(false, static_outcome, render_outcome).last() == FetchStep::Done(render_outcome),
{
    reveal_with_fuel(render_count, 4);
    let run = fetch_run(false, static_outcome, render_outcome);
    assert(run.drop_last().drop_last().drop_last().len() == 0);
}

/// A forced render skips the static fetch and renders exactly once.
pub proof fn lemma_forced_renders_once(
    static_outcome: Result<String, FetchError>,
    render_outcome: Result<String, FetchError>,
)
    ensures
        render_count(fetch_run(true, static_outcome, render_outcome)) == 1,
        fetch_run(true, static_outcome, render_outcome)[0] == FetchStep::Render,
        fetch_run(true, static_outcome, render_outcome).last() == FetchStep::Done(render_outcome),
{
    reveal_with_fuel(render_count, 4);
    let run = fetch_run(true, static_outcome, render_outcome);
    assert(run.drop_last().drop_last().len() == 0);
}

/// A static page without a client-rendering marker is kept as it is, and no
/// render takes place.
pub proof fn lemma_plain_page_not_rendered(html: String, render_outcome: Result<String, FetchError>)
    requires
        !has_render_marker_spec(html@),
    ensures
        render_count(fetch_run(false, Ok(html), render_outcome)) == 0,
        fetch_run(false, Ok(html), render_outcome).last() == FetchStep::Done(Ok(html)),
{
    reveal_with_fuel(render_count, 4);
    let run = fetch_run(false, Ok::<String, FetchError>(html), render_outcome);
    assert(run.drop_last().drop_last().len() == 0);
}

} // verus!
