//! State of the response viewer.

use vstd::prelude::*;
use crate::client::ResponseResult;
use crate::json::{pretty, to_pretty_string};

verus! {

pub struct ResponseViewerState {
    pub status: u16,
    pub elapsed_ms: u128,
    pub headers: Vec<(String, String)>,
    /// The body as shown: indented JSON when the response parsed as JSON.
    pub body: String,
    pub scroll: u16,
    pub show_headers: bool,
    /// The file name being typed while the save dialog is open.
    pub save_dialog: Option<String>,
    /// Height of the visible body, as last drawn.
    pub page_size: u16,
}

/// Whether `s` is the viewer of `r` as first shown: scrolled to the top, headers
/// hidden, the body as [`shown_body`] gives it.
pub open spec fn viewing(s: ResponseViewerState, r: ResponseResult) -> bool {
    &&& s.status == r.status
    &&& s.elapsed_ms == r.elapsed_ms
    &&& s.headers == r.headers
    &&& s.body@ == shown_body(r)
    &&& s.scroll == 0
    &&& !s.show_headers
    &&& s.save_dialog is None
    &&& s.page_size == 10
}

/// The body shown for a response.
pub open spec fn shown_body(r: ResponseResult) -> Seq<char> {
    match r.body_json {
        Some(j) => pretty(j@),
        None => r.body@,
    }
}

impl Default for ResponseViewerState {
    fn default() -> (s: Self)
        ensures
            s.status == 0,
            s.elapsed_ms == 0,
            s.headers@.len() == 0,
            s.body@.len() == 0,
            s.scroll == 0,
            !s.show_headers,
            s.save_dialog is None,
            s.page_size == 10,
    {
        ResponseViewerState {
            status: 0,
            elapsed_ms: 0,
            headers: Vec::new(),
            body: String::new(),
            scroll: 0,
            show_headers: false,
            save_dialog: None,
            page_size: 10,
        }
    }
}

impl ResponseViewerState {
    /// The viewer for a response, scrolled to the top, headers hidden.
    pub fn from_response(r: ResponseResult) -> (s: Self)
        ensures
            viewing(s, r),
    {
        let body = match &r.body_json {
            Some(j) => to_pretty_string(j),
            None => r.body,
        };
        ResponseViewerState {
            status: r.status,
            elapsed_ms: r.elapsed_ms,
            headers: r.headers,
            body,
            scroll: 0,
            show_headers: false,
            save_dialog: None,
            page_size: 10,
        }
    }
}

} // verus!
