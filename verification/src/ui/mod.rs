//! What the screens show, as styled text: detail panes, the help bar, syntax
//! colouring, the body cursors, rendered Markdown and popup geometry.

use vstd::prelude::*;
use crate::json::{nat_text, nat_to_text, push_str, push_str_chars};
use crate::text::{chars_of, string_of, pieces, lemma_pieces_nonempty};
use crate::theme::{Color, Theme, byte_len, utf8_width_exec, lemma_byte_len_nonneg};
use crate::text::lines_of;
use crate::text::lines_exec;
use crate::app::Screen;

pub mod detail;
pub mod markdown;
pub mod body;
pub mod texts;

verus! {

// ── Styled text ──────────────────────────────────────────────────────────────

/// How a piece of text is drawn.
#[derive(PartialEq, Eq, Structural, Clone, Copy, Debug)]
pub struct Style {
    pub fg: Option<Color>,
    pub bg: Option<Color>,
    pub bold: bool,
    pub italic: bool,
    pub dim: bool,
}

/// The default style.
pub open spec fn plain() -> Style {
    Style { fg: None, bg: None, bold: false, italic: false, dim: false }
}

/// Text in colour `c`.
pub open spec fn fg(c: Color) -> Style {
    Style { fg: Some(c), ..plain() }
}

/// Bold text in colour `c`.
pub open spec fn bold_fg(c: Color) -> Style {
    Style { fg: Some(c), bold: true, ..plain() }
}

impl Style {
    pub fn plain() -> (s: Style)
        ensures
            s == plain(),
    {
        Style { fg: None, bg: None, bold: false, italic: false, dim: false }
    }

    pub fn fg(c: Color) -> (s: Style)
        ensures
            s == fg(c),
    {
        Style { fg: Some(c), bg: None, bold: false, italic: false, dim: false }
    }

    pub fn bold_fg(c: Color) -> (s: Style)
        ensures
            s == bold_fg(c),
    {
        Style { fg: Some(c), bg: None, bold: true, italic: false, dim: false }
    }
}

/// How titles are drawn: bold, in the theme's title colour.
pub fn title_style(theme: &Theme) -> (s: Style)
    ensures
        s == bold_fg(theme.title),
{
    Style::bold_fg(theme.title)
}

/// How the selected row is drawn: bold, on the theme's selection background.
pub fn selected_style(theme: &Theme) -> (s: Style)
    ensures
        s == (Style { bg: Some(theme.selected_bg), bold: true, ..plain() }),
{
    Style { fg: None, bg: Some(theme.selected_bg), bold: true, italic: false, dim: false }
}

/// A run of text in one style.
pub struct Span {
    pub text: String,
    pub style: Style,
}

/// One line of styled text.
pub struct Line {
    pub spans: Vec<Span>,
}

impl View for Span {
    type V = (Seq<char>, Style);

    open spec fn view(&self) -> (Seq<char>, Style) {
        (self.text@, self.style)
    }
}

impl View for Line {
    type V = Seq<(Seq<char>, Style)>;

    open spec fn view(&self) -> Seq<(Seq<char>, Style)> {
        self.spans@.map_values(|s: Span| s@)
    }
}

pub open spec fn lines_view(ls: Seq<Line>) -> Seq<Seq<(Seq<char>, Style)>> {
    ls.map_values(|l: Line| l@)
}

/// An empty line (what `Line::from("")` holds: no spans).
pub open spec fn blank() -> Seq<(Seq<char>, Style)> {
    Seq::empty()
}

/// A span of a literal text.
pub fn span_str(t: &str, style: Style) -> (s: Span)
    ensures
        s@ == (t@, style),
{
    Span { text: string_of(chars_of(t).as_slice()), style }
}

/// A span of characters.
pub fn span_chars(t: &Vec<char>, style: Style) -> (s: Span)
    ensures
        s@ == (t@, style),
{
    Span { text: string_of(t.as_slice()), style }
}

/// A line of one span.
pub fn line1(a: Span) -> (l: Line)
    ensures
        l@ == seq![a@],
{
    let mut spans: Vec<Span> = Vec::new();
    spans.push(a);
    let l = Line { spans };
    assert(l@ =~= seq![a@]);
    l
}

/// A line of two spans.
pub fn line2(a: Span, b: Span) -> (l: Line)
    ensures
        l@ == seq![a@, b@],
{
    let mut spans: Vec<Span> = Vec::new();
    spans.push(a);
    spans.push(b);
    let l = Line { spans };
    assert(l@ =~= seq![a@, b@]);
    l
}

/// A line of three spans.
pub fn line3(a: Span, b: Span, c: Span) -> (l: Line)
    ensures
        l@ == seq![a@, b@, c@],
{
    let mut spans: Vec<Span> = Vec::new();
    spans.push(a);
    spans.push(b);
    spans.push(c);
    let l = Line { spans };
    assert(l@ =~= seq![a@, b@, c@]);
    l
}

/// An empty line.
pub fn blank_line() -> (l: Line)
    ensures
        l@ == blank(),
{
    let l = Line { spans: Vec::new() };
    assert(l@ =~= blank());
    l
}

// ── Status and times ─────────────────────────────────────────────────────────

/// The reason phrase shown for a status code (empty for codes without one).
pub open spec fn status_phrase(status: u16) -> Seq<char> {
    if status == 200 {
        "OK"@
    } else if status == 201 {
        "Created"@
    } else if status == 204 {
        "No Content"@
    } else if status == 301 {
        "Moved Permanently"@
    } else if status == 302 {
        "Found"@
    } else if status == 304 {
        "Not Modified"@
    } else if status == 400 {
        "Bad Request"@
    } else if status == 401 {
        "Unauthorized"@
    } else if status == 403 {
        "Forbidden"@
    } else if status == 404 {
        "Not Found"@
    } else if status == 422 {
        "Unprocessable Entity"@
    } else if status == 429 {
        "Too Many Requests"@
    } else if status == 500 {
        "Internal Server Error"@
    } else if status == 502 {
        "Bad Gateway"@
    } else if status == 503 {
        "Service Unavailable"@
    } else {
        ""@
    }
}

/// The reason phrase of a status code (see [`status_phrase`]).
pub fn status_text(status: u16) -> (r: &'static str)
    ensures
        r@ == status_phrase(status),
{
    if status == 200 {
        "OK"
    } else if status == 201 {
        "Created"
    } else if status == 204 {
        "No Content"
    } else if status == 301 {
        "Moved Permanently"
    } else if status == 302 {
        "Found"
    } else if status == 304 {
        "Not Modified"
    } else if status == 400 {
        "Bad Request"
    } else if status == 401 {
        "Unauthorized"
    } else if status == 403 {
        "Forbidden"
    } else if status == 404 {
        "Not Found"
    } else if status == 422 {
        "Unprocessable Entity"
    } else if status == 429 {
        "Too Many Requests"
    } else if status == 500 {
        "Internal Server Error"
    } else if status == 502 {
        "Bad Gateway"
    } else if status == 503 {
        "Service Unavailable"
    } else {
        ""
    }
}

/// How long ago something happened, in the largest whole unit: seconds under a
/// minute, minutes under an hour, hours under a day, else days.
pub open spec fn elapsed_text(secs: nat) -> Seq<char> {
    if secs < 60 {
        nat_text(secs) + "s ago"@
    } else if secs < 3600 {
        nat_text(secs / 60) + "m ago"@
    } else if secs < 86400 {
        nat_text(secs / 3600) + "h ago"@
    } else {
        nat_text(secs / 86400) + "d ago"@
    }
}

/// How long ago something happened (see [`elapsed_text`]).
pub fn format_elapsed(secs: u64) -> (r: String)
    ensures
        r@ == elapsed_text(secs as nat),
{
    let (n, unit): (u64, &str) = if secs < 60 {
        (secs, "s ago")
    } else if secs < 3600 {
        (secs / 60, "m ago")
    } else if secs < 86400 {
        (secs / 3600, "h ago")
    } else {
        (secs / 86400, "d ago")
    };
    let mut out: Vec<char> = Vec::new();
    let digits = nat_to_text(n as u128);
    push_str(&mut out, digits.as_str());
    push_str(&mut out, unit);
    string_of(out.as_slice())
}

// ── Geometry ─────────────────────────────────────────────────────────────────

/// A rectangle of terminal cells.
#[derive(PartialEq, Eq, Structural, Clone, Copy, Debug)]
pub struct Rect {
    pub x: u16,
    pub y: u16,
    pub width: u16,
    pub height: u16,
}

/// The rectangle at `(x, y)` of the given size, shrunk so that its right and bottom
/// edges stay within `u16` (as `ratatui::layout::Rect::new` does).
pub open spec fn rect(x: u16, y: u16, width: u16, height: u16) -> Rect {
    Rect {
        x,
        y,
        width: if width > u16::MAX - x { (u16::MAX - x) as u16 } else { width },
        height: if height > u16::MAX - y { (u16::MAX - y) as u16 } else { height },
    }
}

impl Rect {
    /// See [`rect`].
    pub fn new(x: u16, y: u16, width: u16, height: u16) -> (r: Rect)
        ensures
            r == rect(x, y, width, height),
    {
        let max_width = u16::MAX - x;
        let max_height = u16::MAX - y;
        Rect {
            x,
            y,
            width: if width > max_width { max_width } else { width },
            height: if height > max_height { max_height } else { height },
        }
    }
}

/// `a - b`, at least 0.
pub open spec fn minus(a: int, b: int) -> int {
    if a > b { a - b } else { 0 }
}

/// The smaller of two numbers.
pub open spec fn least(a: int, b: int) -> int {
    if a < b { a } else { b }
}

/// A rectangle of the given size (at most that of `r`) centred in `r`.
pub open spec fn centered(width: u16, height: u16, r: Rect) -> Rect {
    let w = least(width as int, r.width as int);
    let h = least(height as int, r.height as int);
    rect(
        (r.x + minus(r.width as int, w) / 2) as u16,
        (r.y + minus(r.height as int, h) / 2) as u16,
        w as u16,
        h as u16,
    )
}

/// A rectangle of fixed size centred in `r` (see [`centered`]).
pub fn centered_rect_fixed(width: u16, height: u16, r: Rect) -> (c: Rect)
    requires
        r.x + minus(r.width as int, least(width as int, r.width as int)) / 2 <= u16::MAX,
        r.y + minus(r.height as int, least(height as int, r.height as int)) / 2 <= u16::MAX,
    ensures
        c == centered(width, height, r),
{
    let w = if width < r.width { width } else { r.width };
    let h = if height < r.height { height } else { r.height };
    let x = r.x + (r.width - w) / 2;
    let y = r.y + (r.height - h) / 2;
    Rect::new(x, y, w, h)
}

// ── Help bar and popups ──────────────────────────────────────────────────────

/// The keys listed in the help bar of each screen, with what they do.
pub open spec fn help_keys(screen: Screen) -> Seq<(Seq<char>, Seq<char>)> {
    match screen {
        Screen::ServerList => seq![("↑/k↓/j"@, "navigate"@), ("PgUp/PgDn"@, "page"@), ("Home/End"@, "first/last"@), ("Enter"@, "open"@), ("a"@, "add"@), ("d"@, "delete"@), ("r"@, "refresh"@), ("q/^C"@, "quit"@)],
        Screen::AddServer => seq![("Tab"@, "switch field"@), ("Enter"@, "confirm"@), ("Esc"@, "cancel"@)],
        Screen::EndpointList => seq![("↑/k↓/j"@, "navigate"@), ("PgUp/PgDn"@, "page"@), ("Home/End"@, "first/last"@), ("/"@, "filter"@), ("s"@, "sort"@), ("c"@, "curl"@), ("Tab"@, "detail"@), ("Enter"@, "open"@), ("q"@, "quit"@)],
        Screen::RequestBuilder => seq![("↑/k↓/j"@, "navigate rows"@), ("Space"@, "toggle optional"@), ("e"@, "edit"@), ("Esc"@, "stop edit / back"@), ("Enter"@, "send"@), ("q"@, "quit"@)],
        Screen::ResponseViewer => seq![("↑/k↓/j"@, "scroll"@), ("PgUp/PgDn"@, "page"@), ("Home/End"@, "top/bottom"@), ("h"@, "toggle headers"@), ("s"@, "save"@), ("q"@, "quit"@)],
    }
}

/// The keys of the help bar (see [`help_keys`]).
pub fn help_entries(screen: Screen) -> (r: Vec<(&'static str, &'static str)>)
    ensures
        r@.map_values(|e: (&str, &str)| (e.0@, e.1@)) == help_keys(screen),
{
    let mut v: Vec<(&'static str, &'static str)> = Vec::new();
    match screen {
        Screen::ServerList => {
            v.push(("↑/k↓/j", "navigate"));
            v.push(("PgUp/PgDn", "page"));
            v.push(("Home/End", "first/last"));
            v.push(("Enter", "open"));
            v.push(("a", "add"));
            v.push(("d", "delete"));
            v.push(("r", "refresh"));
            v.push(("q/^C", "quit"));
        },
        Screen::AddServer => {
            v.push(("Tab", "switch field"));
            v.push(("Enter", "confirm"));
            v.push(("Esc", "cancel"));
        },
        Screen::EndpointList => {
            v.push(("↑/k↓/j", "navigate"));
            v.push(("PgUp/PgDn", "page"));
            v.push(("Home/End", "first/last"));
            v.push(("/", "filter"));
            v.push(("s", "sort"));
            v.push(("c", "curl"));
            v.push(("Tab", "detail"));
            v.push(("Enter", "open"));
            v.push(("q", "quit"));
        },
        Screen::RequestBuilder => {
            v.push(("↑/k↓/j", "navigate rows"));
            v.push(("Space", "toggle optional"));
            v.push(("e", "edit"));
            v.push(("Esc", "stop edit / back"));
            v.push(("Enter", "send"));
            v.push(("q", "quit"));
        },
        Screen::ResponseViewer => {
            v.push(("↑/k↓/j", "scroll"));
            v.push(("PgUp/PgDn", "page"));
            v.push(("Home/End", "top/bottom"));
            v.push(("h", "toggle headers"));
            v.push(("s", "save"));
            v.push(("q", "quit"));
        },
    }
    assert(v@.map_values(|e: (&str, &str)| (e.0@, e.1@)) =~= help_keys(screen));
    v
}

/// The spans of the help bar for the given keys: each key after a space in the key
/// colour, each description between spaces in the description colour.
pub open spec fn help_spans(keys: Seq<(Seq<char>, Seq<char>)>, t: Theme) -> Seq<(Seq<char>, Style)>
    decreases keys.len(),
{
    if keys.len() == 0 {
        Seq::empty()
    } else {
        help_spans(keys.drop_last(), t) + seq![
            (" "@ + keys.last().0, fg(t.help_key)),
            (" "@ + keys.last().1 + " "@, fg(t.help_desc)),
        ]
    }
}

/// The help bar of a screen (see [`help_spans`]).
pub fn help_bar(screen: Screen, t: &Theme) -> (l: Line)
    ensures
        l@ == help_spans(help_keys(screen), *t),
{
    let keys = help_entries(screen);
    let ghost kv = keys@.map_values(|e: (&str, &str)| (e.0@, e.1@));
    let mut spans: Vec<Span> = Vec::new();
    let mut i: usize = 0;
    while i < keys.len()
        invariant
            i <= keys@.len(),
            kv == keys@.map_values(|e: (&str, &str)| (e.0@, e.1@)),
            spans@.map_values(|s: Span| s@) == help_spans(kv.take(i as int), *t),
        decreases keys@.len() - i,
    {
        let ghost before = spans@.map_values(|s: Span| s@);
        let (k, d) = keys[i];
        let mut a: Vec<char> = Vec::new();
        push_str(&mut a, " ");
        push_str(&mut a, k);
        let mut b: Vec<char> = Vec::new();
        push_str(&mut b, " ");
        push_str(&mut b, d);
        push_str(&mut b, " ");
        spans.push(span_chars(&a, Style::fg(t.help_key)));
        spans.push(span_chars(&b, Style::fg(t.help_desc)));
        assert(kv.take(i + 1).drop_last() =~= kv.take(i as int));
        assert(kv.take(i + 1).last() == (k@, d@));
        assert(spans@.map_values(|s: Span| s@) =~= help_spans(kv.take(i + 1), *t));
        i = i + 1;
    }
    assert(kv.take(kv.len() as int) =~= kv);
    Line { spans }
}

/// Rows the lines take when wrapped at `w > 0` bytes (an empty line takes one).
pub open spec fn wrapped_rows(ls: Seq<Seq<char>>, w: int) -> int
    decreases ls.len(),
{
    if ls.len() == 0 {
        0
    } else {
        let b = byte_len(ls.last());
        wrapped_rows(ls.drop_last(), w) + ((if b > 1 { b } else { 1 }) + w - 1) / w
    }
}

/// Rows the error text takes inside a popup `inner` bytes wide (at least one).
pub open spec fn error_rows(err: Seq<char>, inner: int) -> int {
    if inner <= 0 {
        1
    } else {
        let r = wrapped_rows(lines_of(err), inner);
        if r > 1 { r } else { 1 }
    }
}

/// Width of the error popup inside `area`.
pub open spec fn error_width(area: Rect) -> int {
    minus(area.width as int, 4)
}

/// The error popup: two cells from the left, four narrower than `area`, as tall as
/// the wrapped text plus its borders but at most eight rows, its bottom two rows
/// above the bottom of `area`.
pub open spec fn error_popup(area: Rect, err: Seq<char>) -> Rect {
    let width = error_width(area);
    let rows = error_rows(err, minus(width, 2));
    let height = least(rows % 65536 + 2, 8);
    rect(2, minus(area.height as int, height + 2) as u16, width as u16, height as u16)
}

/// Whether sizing the error popup stays within the integer types: the row count fits
/// in `usize`, and, cut to 16 bits, leaves room for the two border rows.
pub open spec fn error_popup_fits(area: Rect, err: Seq<char>) -> bool {
    let rows = error_rows(err, minus(error_width(area), 2));
    rows <= usize::MAX && rows % 65536 + 2 <= u16::MAX
}

proof fn lemma_wrapped_rows_grow(ls: Seq<Seq<char>>, w: int, i: int)
    requires
        w > 0,
        0 <= i <= ls.len(),
    ensures
        0 <= wrapped_rows(ls.take(i), w) <= wrapped_rows(ls, w),
    decreases ls.len() - i,
{
    if i < ls.len() {
        lemma_wrapped_rows_grow(ls, w, i + 1);
        assert(ls.take(i + 1).drop_last() =~= ls.take(i));
        lemma_wrapped_rows_nonneg(ls.take(i), w);
        let b = byte_len(ls.take(i + 1).last());
        let m = if b > 1 { b } else { 1 };
        assert((m + w - 1) / w >= 0) by (nonlinear_arith)
            requires
                m >= 1,
                w > 0,
        ;
    } else {
        assert(ls.take(i) =~= ls);
        lemma_wrapped_rows_nonneg(ls, w);
    }
}

proof fn lemma_wrapped_rows_nonneg(ls: Seq<Seq<char>>, w: int)
    requires
        w > 0,
    ensures
        wrapped_rows(ls, w) >= 0,
    decreases ls.len(),
{
    if ls.len() > 0 {
        lemma_wrapped_rows_nonneg(ls.drop_last(), w);
        let b = byte_len(ls.last());
        let m = if b > 1 { b } else { 1 };
        assert((m + w - 1) / w >= 0) by (nonlinear_arith)
            requires
                m >= 1,
                w > 0,
        ;
    }
}

/// Bytes taken by `cs` in UTF-8.
fn byte_len_exec(cs: &Vec<char>) -> (n: u128)
    ensures
        n == byte_len(cs@),
        n <= 4 * (usize::MAX as int),
{
    let mut n: u128 = 0;
    let len = cs.len();
    let mut i: usize = len;
    assert(cs@.skip(i as int) =~= Seq::<char>::empty());
    while i > 0
        invariant
            len == cs@.len(),
            i <= cs@.len(),
            n == byte_len(cs@.skip(i as int)),
            n <= 4 * (cs@.len() - i),
        decreases i,
    {
        assert(cs@.skip(i - 1).drop_first() =~= cs@.skip(i as int));
        assert(cs@.skip(i - 1)[0] == cs@[i - 1]);
        n = n + utf8_width_exec(cs[i - 1]) as u128;
        i = i - 1;
    }
    assert(cs@.skip(0) =~= cs@);
    n
}

/// Whether sizing the error popup stays within the integer types (see
/// [`error_popup_fits`]).
pub fn error_popup_fits_exec(area: Rect, err: &str) -> (b: bool)
    ensures
        b == error_popup_fits(area, err@),
{
    let width: u16 = if area.width > 4 { area.width - 4 } else { 0 };
    let inner: u16 = if width > 2 { width - 2 } else { 0 };
    if inner == 0 {
        return true;
    }
    let ls = lines_exec(err);
    let ghost lv = ls@.map_values(|l: Vec<char>| l@);
    let mut total: u128 = 0;
    let mut i: usize = 0;
    proof {
        assert(lv.take(0) =~= Seq::<Seq<char>>::empty());
    }
    while i < ls.len()
        invariant
            i <= ls@.len(),
            inner > 0,
            lv == ls@.map_values(|l: Vec<char>| l@),
            lv == lines_of(err@),
            total == wrapped_rows(lv.take(i as int), inner as int),
            total <= usize::MAX,
            inner as int == minus(error_width(area), 2),
        decreases ls@.len() - i,
    {
        proof {
            assert(lv.take(i + 1).drop_last() =~= lv.take(i as int));
            assert(lv.take(i + 1).last() == ls@[i as int]@);
        }
        let b = byte_len_exec(&ls[i]);
        let m: u128 = if b > 1 { b } else { 1 };
        let add = (m + (inner as u128) - 1) / (inner as u128);
        if add > (usize::MAX as u128) - total {
            proof {
                lemma_wrapped_rows_grow(lv, inner as int, i + 1);
                assert(wrapped_rows(lv.take(i + 1), inner as int) == total + add);
                assert(wrapped_rows(lv, inner as int) > usize::MAX);
                assert(minus(error_width(area), 2) == inner as int);
                assert(error_rows(err@, inner as int) == wrapped_rows(lv, inner as int));
            }
            return false;
        }
        total = total + add;
        i = i + 1;
    }
    assert(lv.take(lv.len() as int) =~= lv);
    let rows: u128 = if total > 1 { total } else { 1 };
    rows % 65536 + 2 <= 65535
}

/// Where the error popup goes (see [`error_popup`]).
pub fn error_area(area: Rect, err: &str) -> (r: Rect)
    requires
        error_popup_fits(area, err@),
    ensures
        r == error_popup(area, err@),
{
    let width: u16 = if area.width > 4 { area.width - 4 } else { 0 };
    let inner: u16 = if width > 2 { width - 2 } else { 0 };
    let rows: u128 = if inner == 0 {
        1
    } else {
        let ls = lines_exec(err);
        let ghost lv = ls@.map_values(|l: Vec<char>| l@);
        let mut total: u128 = 0;
        let mut i: usize = 0;
        proof {
            lemma_wrapped_rows_grow(lv, inner as int, 0);
            assert(lv.take(0) =~= Seq::<Seq<char>>::empty());
        }
        while i < ls.len()
            invariant
                i <= ls@.len(),
                inner > 0,
                lv == ls@.map_values(|l: Vec<char>| l@),
                lv == lines_of(err@),
                total == wrapped_rows(lv.take(i as int), inner as int),
                wrapped_rows(lv, inner as int) <= usize::MAX,
            decreases ls@.len() - i,
        {
            proof {
                lemma_wrapped_rows_grow(lv, inner as int, i + 1);
                assert(lv.take(i + 1).drop_last() =~= lv.take(i as int));
                assert(lv.take(i + 1).last() == ls@[i as int]@);
            }
            let b = byte_len_exec(&ls[i]);
            let m: u128 = if b > 1 { b } else { 1 };
            let add = (m + (inner as u128) - 1) / (inner as u128);
            total = total + add;
            i = i + 1;
        }
        assert(lv.take(lv.len() as int) =~= lv);
        if total > 1 { total } else { 1 }
    };
    let cut: u16 = (rows % 65536) as u16;
    let height: u16 = if cut + 2 < 8 { cut + 2 } else { 8 };
    let y: u16 = if area.height > height + 2 { area.height - (height + 2) } else { 0 };
    Rect::new(2, y, width, height)
}

} // verus!
