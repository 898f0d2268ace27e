//! The host side of a visual's live-stream poll: only URLs the visual itself
//! declared are fetched, and every page fetched is summarised by identifiers
//! and counts alone.

use crate::admission::pipeline::has_operation;
use crate::json::{member, JsonValue, JsonView};
use crate::text::{concat3, decimal, texts_of, u64_to_string};
use vstd::prelude::*;

verus! {

/// The refusal for a poll URL the visual did not declare.
pub open spec fn undeclared_poll(declared_count: nat) -> Seq<char> {
    "visual stream poll URL is not declared on this visual; the visual declares "@ + decimal(
        declared_count,
    ) + " live stream(s)"@
}

/// Admits a poll only for a URL among those the visual declares.
pub fn check_poll_declared(declared_urls: &Vec<String>, poll_url: &str) -> (r: Result<(), String>)
    ensures
        match r {
            Ok(_) => texts_of(declared_urls@).contains(poll_url@),
            Err(m) => !texts_of(declared_urls@).contains(poll_url@) && m@ == undeclared_poll(
                declared_urls@.len(),
            ),
        },
{
    if has_operation(declared_urls.as_slice(), poll_url) {
        Ok(())
    } else {
        let n = u64_to_string(declared_urls.len() as u64);
        Err(concat3(
            "visual stream poll URL is not declared on this visual; the visual declares ",
            n.as_str(),
            " live stream(s)",
        ))
    }
}

/// The events of a polled page: `events` where that key is present, else
/// `page.events`; counted only where they are an array.
pub open spec fn page_rows(page: JsonView) -> Option<nat> {
    let events = if member(page, "events"@) is Some {
        member(page, "events"@)
    } else {
        match member(page, "page"@) {
            Some(inner) => member(inner, "events"@),
            None => None,
        }
    };
    match events {
        Some(JsonView::Array(items)) => Some(items.len()),
        _ => None,
    }
}

/// Whether a page's cursor says the stream is closed.
pub open spec fn page_closed(page: JsonView) -> bool {
    match member(page, "cursor"@) {
        Some(cursor) => member(cursor, "closed"@) == Some(JsonView::Bool(true)),
        None => false,
    }
}

/// What a fetched page is recorded as: how many rows it held, and whether
/// its cursor closed the stream.
pub fn page_summary(page: &JsonValue) -> (r: (Option<usize>, bool))
    ensures
        match r.0 {
            Some(n) => page_rows(page@) == Some(n as nat),
            None => page_rows(page@) is None,
        },
        r.1 == page_closed(page@),
{
    let events = match page.get("events") {
        Some(e) => Some(e),
        None => match page.get("page") {
            Some(inner) => inner.get("events"),
            None => None,
        },
    };
    let rows = match events {
        Some(e) => match e.as_items() {
            Some(items) => {
                proof {
                    crate::json::lemma_items_view_len(items@, items@.len() as nat);
                }
                Some(items.len())
            },
            None => None,
        },
        None => None,
    };
    let closed = match page.get("cursor") {
        Some(cursor) => match cursor.get("closed") {
            Some(c) => match c {
                JsonValue::Bool(b) => *b,
                _ => false,
            },
            None => false,
        },
        None => false,
    };
    (rows, closed)
}

/// How many events one poll asks for: the request's limit, held between 1
/// and 500.
pub fn poll_limit(limit: u16) -> (r: u16)
    ensures
        r == if limit < 1 {
            1
        } else if limit > 500 {
            500
        } else {
            limit
        },
{
    if limit < 1 {
        1
    } else if limit > 500 {
        500
    } else {
        limit
    }
}

/// The diagnostic event a fetched page is recorded under.
pub fn page_event(closed: bool) -> (r: &'static str)
    ensures
        r@ == if closed { "stream.poll.closed"@ } else { "stream.poll.page"@ },
{
    if closed {
        "stream.poll.closed"
    } else {
        "stream.poll.page"
    }
}

/// Whether a failed poll may recover: a timeout, a refused connection, no
/// status at all, or a server error; a client error says the stream is gone.
pub open spec fn poll_retryable(timed_out: bool, connect_failed: bool, status: Option<u16>) -> bool {
    timed_out || connect_failed || match status {
        Some(code) => code >= 500,
        None => true,
    }
}

pub fn poll_failure_retryable(timed_out: bool, connect_failed: bool, status: Option<u16>) -> (r: bool)
    ensures
        r == poll_retryable(timed_out, connect_failed, status),
{
    timed_out || connect_failed || match status {
        Some(code) => code >= 500,
        None => true,
    }
}

} // verus!
