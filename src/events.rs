//! Crawl lifecycle events, as published to observers of a crawl.
use vstd::prelude::*;

verus! {

/// The lifecycle point an event reports.
#[derive(Clone, Copy, Debug, PartialEq, Eq, Structural)]
pub enum EventKind {
    Started,
    VisitingUrl,
    UrlProcessed,
    Completed,
    Error,
}

/// An immutable record of one lifecycle point of a crawl.
#[derive(Debug)]
pub struct CrawlerEvent {
    pub kind: EventKind,
    pub url: String,
    pub message: String,
    /// Seconds since the Unix epoch, as given by the caller's clock.
    pub timestamp: u64,
}

/// The wire name of an event kind.
pub open spec fn kind_name_spec(k: EventKind) -> Seq<char> {
    match k {
        EventKind::Started => "started"@,
        EventKind::VisitingUrl => "visiting_url"@,
        EventKind::UrlProcessed => "url_processed"@,
        EventKind::Completed => "completed"@,
        EventKind::Error => "error"@,
    }
}

impl EventKind {
    /// The wire name of this kind, as carried in an event's `event_type`.
    pub fn name(&self) -> (r: &'static str)
        ensures
            r@ == kind_name_spec(*self),
    {
        match self {
            EventKind::Started => "started",
            EventKind::VisitingUrl => "visiting_url",
            EventKind::UrlProcessed => "url_processed",
            EventKind::Completed => "completed",
            EventKind::Error => "error",
        }
    }
}

impl CrawlerEvent {
    /// An event of this kind about `url`.
    pub fn new(kind: EventKind, url: &str, message: String, timestamp: u64) -> (r: CrawlerEvent)
        ensures
            r.kind == kind,
            r.url@ == url@,
            r.message@ == message@,
            r.timestamp == timestamp,
    {
        CrawlerEvent { kind, url: String::from_str(url), message, timestamp }
    }
}

} // verus!
