//! Titles and labels computed from the state.

use vstd::prelude::*;
use crate::json::{nat_text, nat_to_text, push_str, push_str_chars};
use crate::text::{chars_of, string_of, starts_with, starts_with_exec};
use crate::theme::{Color, Theme};
use crate::ui::{Style, Span, plain, fg, bold_fg, span_str, span_chars, status_phrase, status_text};
use crate::views::endpoint_list::{SortMode, sort_label};
use crate::views::request_builder::{FieldRow, RowKind, FocusedPane};

verus! {

/// Title of the endpoint list: the server name, and the sort order unless unsorted.
pub open spec fn list_title(server: Seq<char>, mode: SortMode) -> Seq<char> {
    if mode == SortMode::Unsorted {
        " "@ + server + " — Endpoints "@
    } else {
        " "@ + server + " — Endpoints  [sort: "@ + sort_label(mode) + "] "@
    }
}

/// Title of the endpoint list (see [`list_title`]).
pub fn endpoint_list_title(server: &str, mode: SortMode) -> (r: String)
    ensures
        r@ == list_title(server@, mode),
{
    let mut out: Vec<char> = Vec::new();
    push_str(&mut out, " ");
    push_str(&mut out, server);
    if mode == SortMode::Unsorted {
        push_str(&mut out, " — Endpoints ");
    } else {
        push_str(&mut out, " — Endpoints  [sort: ");
        push_str(&mut out, mode.label());
        push_str(&mut out, "] ");
    }
    string_of(out.as_slice())
}

/// Title of the response viewer: status, reason phrase and time taken.
pub open spec fn viewer_title(status: u16, elapsed_ms: u128) -> Seq<char> {
    " Response — "@ + nat_text(status as nat) + " "@ + status_phrase(status) + " — "@ + nat_text(elapsed_ms as nat)
        + "ms "@
}

/// Title of the response viewer (see [`viewer_title`]).
pub fn response_title(status: u16, elapsed_ms: u128) -> (r: String)
    ensures
        r@ == viewer_title(status, elapsed_ms),
{
    let mut out: Vec<char> = Vec::new();
    push_str(&mut out, " Response — ");
    push_str(&mut out, nat_to_text(status as u128).as_str());
    push_str(&mut out, " ");
    push_str(&mut out, status_text(status));
    push_str(&mut out, " — ");
    push_str(&mut out, nat_to_text(elapsed_ms).as_str());
    push_str(&mut out, "ms ");
    string_of(out.as_slice())
}

/// Label and text of a server's location in the detail pane: `URL:` for an HTTP
/// address, `File:` otherwise; the text cut to `budget` characters with an ellipsis
/// in the last place when longer.
pub open spec fn location_label(url: Seq<char>, budget: nat) -> (Seq<char>, Seq<char>) {
    let local = !starts_with(url, "http://"@) && !starts_with(url, "https://"@);
    (
        if local { "File: "@ } else { "URL:  "@ },
        if url.len() > budget {
            url.take(if budget >= 1 { budget - 1 } else { 0 }) + "…"@
        } else {
            url
        },
    )
}

/// Label and shown text of a server's location (see [`location_label`]).
pub fn server_location(url: &str, budget: usize) -> (r: (&'static str, String))
    ensures
        (r.0@, r.1@) == location_label(url@, budget as nat),
{
    let local = !starts_with_exec(url, "http://") && !starts_with_exec(url, "https://");
    let label = if local { "File: " } else { "URL:  " };
    let cs = chars_of(url);
    if cs.len() > budget {
        let keep = if budget >= 1 { budget - 1 } else { 0 };
        let mut out: Vec<char> = Vec::new();
        let mut i: usize = 0;
        while i < keep
            invariant
                keep < cs@.len(),
                i <= keep,
                out@ == cs@.take(i as int),
            decreases keep - i,
        {
            out.push(cs[i]);
            assert(out@ =~= cs@.take(i + 1));
            i = i + 1;
        }
        push_str(&mut out, "…");
        (label, string_of(out.as_slice()))
    } else {
        (label, string_of(cs.as_slice()))
    }
}

/// Number of line feeds among the first `n` characters.
pub open spec fn feeds_before(cs: Seq<char>, n: int) -> nat
    decreases n,
{
    if n <= 0 || cs.len() == 0 {
        0
    } else if n > cs.len() {
        feeds_before(cs, cs.len() as int)
    } else {
        feeds_before(cs, n - 1) + if cs[n - 1] == '\n' { 1nat } else { 0nat }
    }
}

/// The line of the cursor, cut to 16 bits.
pub open spec fn cursor_row(cs: Seq<char>, cursor: int) -> int {
    (feeds_before(cs, if cursor < cs.len() { cursor } else { cs.len() as int }) % 65536) as int
}

/// The first line of the body shown so that the cursor's line stays visible in a
/// pane of `visible` lines (the line number cut to 16 bits).
pub open spec fn scroll_top(cs: Seq<char>, cursor: int, visible: u16) -> u16 {
    let line = (feeds_before(cs, if cursor < cs.len() { cursor } else { cs.len() as int }) % 65536) as u16;
    if line >= visible {
        (line - visible + 1) as u16
    } else {
        0
    }
}

/// Whether [`body_scroll_top`] can place the cursor's line: with no line visible, the
/// 16-bit line number must leave room for one more.
pub fn body_scroll_fits(value: &str, cursor: usize, visible: u16) -> (b: bool)
    ensures
        b == (visible > 0 || cursor_row(value@, cursor as int) < 65535),
{
    if visible > 0 {
        return true;
    }
    let cs = chars_of(value);
    let end = if cursor < cs.len() { cursor } else { cs.len() };
    let mut n: usize = 0;
    let mut i: usize = 0;
    while i < end
        invariant
            end <= cs@.len(),
            i <= end,
            n <= i,
            n == feeds_before(cs@, i as int),
        decreases end - i,
    {
        if cs[i] == '\n' {
            n = n + 1;
        }
        i = i + 1;
    }
    n % 65536 < 65535
}

/// How a parameter row is drawn: in the selection style when selected, dimmed when it
/// is optional and switched off, plain otherwise.
pub open spec fn row_style(selected: bool, required: bool, enabled: bool, t: Theme) -> Style {
    if selected {
        Style { bg: Some(t.selected_bg), bold: true, ..plain() }
    } else if !required && !enabled {
        Style { dim: true, ..plain() }
    } else {
        plain()
    }
}

/// The style of a parameter row (see [`row_style`]).
pub fn param_row_style(row: &FieldRow, selected: bool, t: &Theme) -> (s: Style)
    ensures
        s == row_style(selected, row.required, row.enabled, *t),
{
    if selected {
        crate::ui::selected_style(t)
    } else if !row.required && !row.enabled {
        Style { fg: None, bg: None, bold: false, italic: false, dim: true }
    } else {
        Style::plain()
    }
}

/// The first body line to show (see [`scroll_top`]).
pub fn body_scroll_top(value: &str, cursor: usize, visible: u16) -> (r: u16)
    requires
        visible > 0 || cursor_row(value@, cursor as int) < 65535,
    ensures
        r == scroll_top(value@, cursor as int, visible),
{
    let cs = chars_of(value);
    let end = if cursor < cs.len() { cursor } else { cs.len() };
    let mut n: usize = 0;
    let mut i: usize = 0;
    while i < end
        invariant
            end <= cs@.len(),
            i <= end,
            n <= i,
            n == feeds_before(cs@, i as int),
        decreases end - i,
    {
        if cs[i] == '\n' {
            n = n + 1;
        }
        i = i + 1;
    }
    let line: u16 = (n % 65536) as u16;
    if line >= visible {
        (line - visible) + 1
    } else {
        0
    }
}

/// The word shown for a row's kind.
pub open spec fn kind_word(k: RowKind) -> Seq<char> {
    match k {
        RowKind::PathParam => "path"@,
        RowKind::QueryParam => "query"@,
        RowKind::Header => "header"@,
        RowKind::Body => "body"@,
    }
}

/// The cells of a parameter row: the marker (`*` required, `+` switched on, `-`
/// switched off) in its colour, the kind, the name, the type, and the value (with a
/// trailing `_` while it is being edited).
pub open spec fn row_cells(
    kind: RowKind,
    name: Seq<char>,
    type_label: Seq<char>,
    value: Seq<char>,
    required: bool,
    enabled: bool,
    editing: bool,
    t: Theme,
) -> Seq<(Seq<char>, Style)> {
    seq![
        if required {
            ("*"@, fg(t.param_required))
        } else if enabled {
            ("+"@, fg(t.indicator_success))
        } else {
            ("-"@, fg(t.text_secondary))
        },
        (kind_word(kind), fg(t.text_secondary)),
        (name, fg(t.text_key)),
        (type_label, fg(t.text_secondary)),
        (if editing { value + "_"@ } else { value }, plain()),
    ]
}

/// The cells of a parameter row (see [`row_cells`]); `editing` tells whether this
/// row's value is being edited.
pub fn param_row_cells(row: &FieldRow, editing: bool, t: &Theme) -> (r: Vec<Span>)
    ensures
        r@.map_values(|s: Span| s@) == row_cells(
            row.kind,
            row.name@,
            row.type_label@,
            row.value@,
            row.required,
            row.enabled,
            editing,
            *t,
        ),
{
    let marker = if row.required {
        span_str("*", Style::fg(t.param_required))
    } else if row.enabled {
        span_str("+", Style::fg(t.indicator_success))
    } else {
        span_str("-", Style::fg(t.text_secondary))
    };
    let kind = match row.kind {
        RowKind::PathParam => "path",
        RowKind::QueryParam => "query",
        RowKind::Header => "header",
        RowKind::Body => "body",
    };
    let mut value: Vec<char> = Vec::new();
    push_str(&mut value, row.value.as_str());
    if editing {
        push_str(&mut value, "_");
    }
    let mut r: Vec<Span> = Vec::new();
    r.push(marker);
    r.push(span_str(kind, Style::fg(t.text_secondary)));
    r.push(span_str(row.name.as_str(), Style::fg(t.text_key)));
    r.push(span_str(row.type_label.as_str(), Style::fg(t.text_secondary)));
    r.push(span_chars(&value, Style::plain()));
    assert(r@.map_values(|s: Span| s@) =~= row_cells(
        row.kind,
        row.name@,
        row.type_label@,
        row.value@,
        row.required,
        row.enabled,
        editing,
        *t,
    ));
    r
}

/// The title of the body pane for the focused pane.
pub open spec fn body_title(type_label: Seq<char>, focus: FocusedPane) -> Seq<char> {
    match focus {
        FocusedPane::BodyNormal => " Body ("@ + type_label
            + ") — NORMAL  hjkl=move  0/$=line  i/a=insert  Tab/Esc=params "@,
        FocusedPane::BodyInsert => " Body ("@ + type_label + ") — INSERT  Esc=normal "@,
        _ => " Body ("@ + type_label + ") — Tab=focus "@,
    }
}

/// The title of the body pane (see [`body_title`]).
pub fn body_pane_title(type_label: &str, focus: FocusedPane) -> (r: String)
    ensures
        r@ == body_title(type_label@, focus),
{
    let mut out: Vec<char> = Vec::new();
    push_str(&mut out, " Body (");
    push_str(&mut out, type_label);
    match focus {
        FocusedPane::BodyNormal => push_str(&mut out, ") — NORMAL  hjkl=move  0/$=line  i/a=insert  Tab/Esc=params "),
        FocusedPane::BodyInsert => push_str(&mut out, ") — INSERT  Esc=normal "),
        _ => push_str(&mut out, ") — Tab=focus "),
    }
    string_of(out.as_slice())
}

} // verus!
