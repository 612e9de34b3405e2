//! State of the request builder: the parameter table, the body editor with its
//! vim-like motions, and the assembly of the request.

use vstd::prelude::*;
use crate::client::{RequestDef, pairs_view, pair_insert, insert_pair, fill_vars, fill_pairs};
use crate::json::{JsonValue, JsonView, compact, pretty, to_compact_string, to_pretty_string};
use crate::openapi::{Endpoint, ResolvedParam, ResolvedBody};
use crate::text::{chars_of, string_of, is_alphanumeric, char_is_alphanumeric};
use crate::schema::str_is;
use crate::document::parsed_json;

verus! {

#[derive(PartialEq, Eq, Structural, Clone, Copy)]
pub enum RowKind {
    PathParam,
    QueryParam,
    Header,
    Body,
}

/// Which pane has focus and in what mode.
#[derive(PartialEq, Eq, Structural, Clone, Copy)]
pub enum FocusedPane {
    /// Top pane: moving between parameter rows.
    ParamsNav,
    /// Top pane: editing a parameter value.
    ParamsEdit,
    /// Bottom pane: normal mode (cursor moves, no typing).
    BodyNormal,
    /// Bottom pane: insert mode (typing edits the body).
    BodyInsert,
}

pub struct FieldRow {
    pub kind: RowKind,
    pub name: String,
    pub type_label: String,
    pub value: String,
    pub required: bool,
    /// Whether the row is sent. Required rows start enabled and cannot be switched
    /// off; optional parameters start disabled.
    pub enabled: bool,
}

pub struct RequestBuilderState {
    pub method: String,
    pub base_url: String,
    pub path_template: String,
    /// Parameter rows first, the body row (if any) last.
    pub rows: Vec<FieldRow>,
    /// Index of the selected parameter row.
    pub selected: usize,
    pub focus: FocusedPane,
    /// Character position of the editing cursor.
    pub cursor: usize,
    /// First key of a pending two-key command (`d` before `dd`/`dw`, `g` before `gg`).
    pub pending_key: Option<char>,
}

pub struct FieldRowView {
    pub kind: RowKind,
    pub name: Seq<char>,
    pub type_label: Seq<char>,
    pub value: Seq<char>,
    pub required: bool,
    pub enabled: bool,
}

impl View for FieldRow {
    type V = FieldRowView;

    open spec fn view(&self) -> FieldRowView {
        FieldRowView {
            kind: self.kind,
            name: self.name@,
            type_label: self.type_label@,
            value: self.value@,
            required: self.required,
            enabled: self.enabled,
        }
    }
}

pub open spec fn rows_view(rows: Seq<FieldRow>) -> Seq<FieldRowView> {
    rows.map_values(|r: FieldRow| r@)
}

// ── Text of values ───────────────────────────────────────────────────────────

/// How an example value is shown in a parameter row: a string as itself, null as
/// nothing, anything else as compact JSON.
pub open spec fn value_text(v: JsonView) -> Seq<char> {
    match v {
        JsonView::Str(s) => s,
        JsonView::Null => Seq::empty(),
        _ => compact(v),
    }
}

pub fn value_to_string(v: &JsonValue) -> (r: String)
    ensures
        r@ == value_text(v@),
{
    match v {
        JsonValue::Str(s) => s.clone(),
        JsonValue::Null => String::new(),
        _ => to_compact_string(v),
    }
}

// ── Building the rows ────────────────────────────────────────────────────────

pub open spec fn kind_of_location(loc: Seq<char>) -> RowKind {
    if loc == "path"@ {
        RowKind::PathParam
    } else if loc == "header"@ {
        RowKind::Header
    } else {
        RowKind::QueryParam
    }
}

pub open spec fn param_row(p: ResolvedParam) -> FieldRowView {
    FieldRowView {
        kind: kind_of_location(p.location@),
        name: p.name@,
        type_label: p.schema_type@,
        value: value_text(p.example@),
        required: p.required,
        enabled: p.required,
    }
}

pub open spec fn header_row(h: (String, String)) -> FieldRowView {
    FieldRowView {
        kind: RowKind::Header,
        name: h.0@,
        type_label: "string"@,
        value: h.1@,
        required: false,
        enabled: true,
    }
}

pub open spec fn body_row(b: ResolvedBody) -> FieldRowView {
    FieldRowView {
        kind: RowKind::Body,
        name: "body"@,
        type_label: b.content_type@,
        value: pretty(b.example@),
        required: false,
        enabled: true,
    }
}

/// The rows for an endpoint: one per parameter, one per default header, then the body.
pub open spec fn endpoint_rows(ep: Endpoint, headers: Seq<(String, String)>) -> Seq<FieldRowView> {
    ep.parameters@.map_values(|p: ResolvedParam| param_row(p)) + headers.map_values(
        |h: (String, String)| header_row(h),
    ) + match ep.request_body {
        Some(b) => seq![body_row(b)],
        None => Seq::empty(),
    }
}

// ── Row queries ──────────────────────────────────────────────────────────────

/// Number of rows that are not the body.
pub open spec fn param_count_of(rows: Seq<FieldRowView>) -> nat
    decreases rows.len(),
{
    if rows.len() == 0 {
        0
    } else {
        param_count_of(rows.drop_last()) + if rows.last().kind == RowKind::Body {
            0nat
        } else {
            1nat
        }
    }
}

/// Index of the first body row.
pub open spec fn body_index(rows: Seq<FieldRowView>) -> Option<int>
    decreases rows.len(),
{
    if rows.len() == 0 {
        None
    } else if rows[0].kind == RowKind::Body {
        Some(0)
    } else {
        match body_index(rows.drop_first()) {
            Some(i) => Some(i + 1),
            None => None,
        }
    }
}

/// The characters of the body (empty when there is no body row).
pub open spec fn body_text(rows: Seq<FieldRowView>) -> Seq<char> {
    match body_index(rows) {
        Some(i) => rows[i].value,
        None => Seq::empty(),
    }
}

/// Whether the rows are laid out as built: every parameter row before the body row,
/// and at most one body row.
pub open spec fn well_laid_out(rows: Seq<FieldRowView>) -> bool {
    forall|i: int| 0 <= i < rows.len() && #[trigger] rows[i].kind == RowKind::Body ==> i == rows.len() - 1
}

pub proof fn lemma_body_index(rows: Seq<FieldRowView>)
    ensures
        match body_index(rows) {
            Some(i) => 0 <= i < rows.len() && rows[i].kind == RowKind::Body && forall|q: int|
                0 <= q < i ==> rows[q].kind != RowKind::Body,
            None => forall|q: int| 0 <= q < rows.len() ==> rows[q].kind != RowKind::Body,
        },
    decreases rows.len(),
{
    if rows.len() > 0 {
        lemma_body_index(rows.drop_first());
        if rows[0].kind != RowKind::Body {
            assert forall|q: int| 0 < q < rows.len() implies rows[q] == rows.drop_first()[q - 1] by {}
        }
    }
}

// ── Lines of the body ────────────────────────────────────────────────────────

/// Index of the last newline before position `n`, or -1.
pub open spec fn last_nl_before(cs: Seq<char>, n: int) -> int
    decreases n,
{
    if n <= 0 {
        -1
    } else if cs[n - 1] == '\n' {
        n - 1
    } else {
        last_nl_before(cs, n - 1)
    }
}

/// Start of the line holding position `n`.
pub open spec fn line_start(cs: Seq<char>, n: int) -> int {
    last_nl_before(cs, n) + 1
}

/// Index of the first newline at or after `n`.
pub open spec fn next_nl(cs: Seq<char>, n: int) -> Option<int>
    decreases cs.len() - n,
{
    if n < 0 || n >= cs.len() {
        None
    } else if cs[n] == '\n' {
        Some(n)
    } else {
        next_nl(cs, n + 1)
    }
}

/// End of the line holding position `n` (its newline, or the end of the text).
pub open spec fn line_end(cs: Seq<char>, n: int) -> int {
    match next_nl(cs, n) {
        Some(e) => e,
        None => cs.len() as int,
    }
}

pub open spec fn min(a: int, b: int) -> int {
    if a <= b {
        a
    } else {
        b
    }
}

/// Cursor after moving up a line: same column, clamped to the previous line's length;
/// unchanged on the first line.
pub open spec fn up_pos(cs: Seq<char>, cur: int) -> int {
    let ls = line_start(cs, cur);
    if ls == 0 {
        cur
    } else {
        let prev_end = ls - 1;
        let prev_start = line_start(cs, prev_end);
        prev_start + min(cur - ls, prev_end - prev_start)
    }
}

/// Cursor after moving down a line: same column, clamped to the next line's length;
/// unchanged on the last line.
pub open spec fn down_pos(cs: Seq<char>, cur: int) -> int {
    match next_nl(cs, cur) {
        Some(nl) => {
            let next_start = nl + 1;
            next_start + min(cur - line_start(cs, cur), line_end(cs, next_start) - next_start)
        },
        None => cur,
    }
}

proof fn lemma_last_nl_bound(cs: Seq<char>, n: int)
    ensures
        -1 <= last_nl_before(cs, n) < (if n > 0 { n } else { 0 }),
        last_nl_before(cs, n) >= 0 ==> cs[last_nl_before(cs, n)] == '\n',
    decreases n,
{
    if n > 0 {
        lemma_last_nl_bound(cs, n - 1);
    }
}

pub proof fn lemma_next_nl_bound(cs: Seq<char>, n: int)
    ensures
        next_nl(cs, n) matches Some(e) ==> n <= e < cs.len() && cs[e] == '\n',
    decreases cs.len() - n,
{
    if 0 <= n < cs.len() {
        lemma_next_nl_bound(cs, n + 1);
    }
}

/// Start of the line holding position `n`.
pub fn line_start_of(cs: &Vec<char>, n: usize) -> (r: usize)
    requires
        n <= cs@.len(),
    ensures
        r as int == line_start(cs@, n as int),
        r <= n,
{
    let mut k = n;
    while k > 0 && cs[k - 1] != '\n'
        invariant
            k <= n <= cs@.len(),
            last_nl_before(cs@, n as int) == last_nl_before(cs@, k as int),
        decreases k,
    {
        k = k - 1;
    }
    k
}

/// Index of the first newline at or after `n`.
pub fn next_nl_of(cs: &Vec<char>, n: usize) -> (r: Option<usize>)
    ensures
        match r {
            Some(e) => next_nl(cs@, n as int) == Some(e as int),
            None => next_nl(cs@, n as int) is None,
        },
{
    let mut k = n;
    while k < cs.len() && cs[k] != '\n'
        invariant
            n <= k,
            next_nl(cs@, n as int) == next_nl(cs@, k as int),
        decreases cs@.len() - k,
    {
        k = k + 1;
    }
    if k < cs.len() {
        Some(k)
    } else {
        None
    }
}

// ── Words ────────────────────────────────────────────────────────────────────

pub open spec fn alnum_run_end(cs: Seq<char>, i: int) -> int
    decreases cs.len() - i,
{
    if 0 <= i < cs.len() && is_alphanumeric(cs[i]) {
        alnum_run_end(cs, i + 1)
    } else {
        i
    }
}

pub open spec fn space_run_end(cs: Seq<char>, i: int) -> int
    decreases cs.len() - i,
{
    if 0 <= i < cs.len() && cs[i] == ' ' {
        space_run_end(cs, i + 1)
    } else {
        i
    }
}

/// End of the word at `start`: a run of alphanumerics and the spaces after it; or a
/// run of spaces; nothing when `start` is on punctuation or a newline.
pub open spec fn word_end(cs: Seq<char>, start: int) -> int {
    if is_alphanumeric(cs[start]) {
        space_run_end(cs, alnum_run_end(cs, start))
    } else if cs[start] == ' ' {
        space_run_end(cs, start)
    } else {
        start
    }
}

proof fn lemma_run_ends(cs: Seq<char>, i: int)
    requires
        0 <= i <= cs.len(),
    ensures
        i <= alnum_run_end(cs, i) <= cs.len(),
        i <= space_run_end(cs, i) <= cs.len(),
    decreases cs.len() - i,
{
    if i < cs.len() {
        lemma_run_ends(cs, i + 1);
    }
}

// ── Editing results ──────────────────────────────────────────────────────────

/// The text after typing `c` at position `cur` (at the end when `cur` is past it).
pub open spec fn typed(cs: Seq<char>, cur: int, c: char) -> Seq<char> {
    cs.insert(min(cur, cs.len() as int), c)
}

/// The span removed by deleting the line at `cur`: the line and its newline; for the
/// last line of several, the newline before it instead.
pub open spec fn line_span(cs: Seq<char>, cur: int) -> (int, int) {
    let ls = line_start(cs, cur);
    let le = match next_nl(cs, ls) {
        Some(i) => i + 1,
        None => cs.len() as int,
    };
    if le == cs.len() && ls > 0 {
        (ls - 1, cs.len() as int)
    } else {
        (ls, le)
    }
}

pub open spec fn cut(cs: Seq<char>, a: int, b: int) -> Seq<char> {
    cs.subrange(0, a) + cs.subrange(b, cs.len() as int)
}

fn cut_exec(cs: &Vec<char>, a: usize, b: usize) -> (r: Vec<char>)
    requires
        a <= b <= cs@.len(),
    ensures
        r@ == cut(cs@, a as int, b as int),
{
    let mut r: Vec<char> = Vec::new();
    let mut i: usize = 0;
    while i < a
        invariant
            i <= a <= b <= cs@.len(),
            r@ == cs@.subrange(0, i as int),
        decreases a - i,
    {
        r.push(cs[i]);
        assert(cs@.subrange(0, i + 1) =~= cs@.subrange(0, i as int).push(cs@[i as int]));
        i = i + 1;
    }
    let mut j = b;
    while j < cs.len()
        invariant
            a <= b <= j <= cs@.len(),
            r@ == cs@.subrange(0, a as int) + cs@.subrange(b as int, j as int),
        decreases cs@.len() - j,
    {
        r.push(cs[j]);
        assert(cs@.subrange(b as int, j + 1) =~= cs@.subrange(b as int, j as int).push(cs@[j as int]));
        j = j + 1;
    }
    assert(r@ =~= cut(cs@, a as int, b as int));
    r
}

fn insert_exec(cs: &Vec<char>, at: usize, c: char) -> (r: Vec<char>)
    requires
        at <= cs@.len(),
    ensures
        r@ == cs@.insert(at as int, c),
{
    let mut r: Vec<char> = Vec::new();
    let mut i: usize = 0;
    while i < at
        invariant
            i <= at <= cs@.len(),
            r@ == cs@.subrange(0, i as int),
        decreases at - i,
    {
        r.push(cs[i]);
        assert(cs@.subrange(0, i + 1) =~= cs@.subrange(0, i as int).push(cs@[i as int]));
        i = i + 1;
    }
    r.push(c);
    let mut j = at;
    while j < cs.len()
        invariant
            at <= j <= cs@.len(),
            r@ == cs@.subrange(0, at as int).push(c) + cs@.subrange(at as int, j as int),
        decreases cs@.len() - j,
    {
        r.push(cs[j]);
        assert(cs@.subrange(at as int, j + 1) =~= cs@.subrange(at as int, j as int).push(cs@[j as int]));
        j = j + 1;
    }
    assert(r@ =~= cs@.insert(at as int, c));
    r
}

/// Replaces the value of row `i`, leaving every other field and row as it was.
fn set_value(rows: &mut Vec<FieldRow>, i: usize, value: String)
    requires
        i < old(rows)@.len(),
    ensures
        rows_view(final(rows)@) == rows_view(old(rows)@).update(
            i as int,
            FieldRowView { value: value@, ..rows_view(old(rows)@)[i as int] },
        ),
{
    let row = FieldRow {
        kind: rows[i].kind,
        name: rows[i].name.clone(),
        type_label: rows[i].type_label.clone(),
        value,
        required: rows[i].required,
        enabled: rows[i].enabled,
    };
    rows.set(i, row);
    assert(rows_view(rows@) =~= rows_view(old(rows)@).update(
        i as int,
        FieldRowView { value: value@, ..rows_view(old(rows)@)[i as int] },
    ));
}

/// Index of the first body row.
fn find_body(rows: &Vec<FieldRow>) -> (r: Option<usize>)
    ensures
        match r {
            Some(i) => body_index(rows_view(rows@)) == Some(i as int) && i < rows@.len()
                && rows@[i as int].kind == RowKind::Body,
            None => body_index(rows_view(rows@)) is None,
        },
{
    let ghost rv = rows_view(rows@);
    let mut i: usize = 0;
    assert(rv.skip(0) =~= rv);
    while i < rows.len()
        invariant
            rv == rows_view(rows@),
            i <= rows@.len(),
            body_index(rv) == (match body_index(rv.skip(i as int)) {
                Some(x) => Some(x + i),
                None => None,
            }),
        decreases rows@.len() - i,
    {
        assert(rv.skip(i as int)[0] == rv[i as int]);
        if rows[i].kind == RowKind::Body {
            assert(body_index(rv.skip(i as int)) == Some(0int));
            return Some(i);
        }
        assert(rv.skip(i as int).drop_first() =~= rv.skip(i + 1));
        i = i + 1;
    }
    assert(rv.skip(i as int).len() == 0);
    None
}

fn kind_for(loc: &String) -> (k: RowKind)
    ensures
        k == kind_of_location(loc@),
{
    if str_is(loc.as_str(), "path") {
        RowKind::PathParam
    } else if str_is(loc.as_str(), "header") {
        RowKind::Header
    } else {
        RowKind::QueryParam
    }
}

// ── Request assembly ─────────────────────────────────────────────────────────

/// Whether `text` is well-formed JSON, as `serde_json` reads it.
pub open spec fn json_parses(text: Seq<char>) -> bool {
    parsed_json(text) is Some
}

/// `serde_json::from_str::<serde_json::Value>`, telling only whether the text parses
/// (whether [`parsed_json`] gives a value).
#[verifier::external_body]
pub(crate) fn is_json(text: &str) -> (b: bool)
    ensures
        b == json_parses(text@),
{
    serde_json::from_str::<serde_json::Value>(text).is_ok()
}

/// What the rows contribute to a request.
pub struct RequestParts {
    pub path: Seq<(Seq<char>, Seq<char>)>,
    pub query: Seq<(Seq<char>, Seq<char>)>,
    pub headers: Seq<(Seq<char>, Seq<char>)>,
    pub body: Option<Seq<char>>,
}

/// The rows folded in order: an enabled path parameter is set; an enabled query
/// parameter or header is set when its value is not empty; each body row sets the body
/// to its text when that parses as JSON and clears it otherwise.
pub open spec fn request_parts(rows: Seq<FieldRowView>) -> RequestParts
    decreases rows.len(),
{
    if rows.len() == 0 {
        RequestParts { path: Seq::empty(), query: Seq::empty(), headers: Seq::empty(), body: None }
    } else {
        let acc = request_parts(rows.drop_last());
        let r = rows.last();
        match r.kind {
            RowKind::PathParam => if r.enabled {
                RequestParts { path: pair_insert(acc.path, r.name, r.value), ..acc }
            } else {
                acc
            },
            RowKind::QueryParam => if r.enabled && r.value.len() > 0 {
                RequestParts { query: pair_insert(acc.query, r.name, r.value), ..acc }
            } else {
                acc
            },
            RowKind::Header => if r.enabled && r.value.len() > 0 {
                RequestParts { headers: pair_insert(acc.headers, r.name, r.value), ..acc }
            } else {
                acc
            },
            RowKind::Body => RequestParts {
                body: if json_parses(r.value) {
                    Some(r.value)
                } else {
                    None
                },
                ..acc
            },
        }
    }
}

/// Whether `r` is the request the builder describes: its method and URL parts, and
/// the parameters, headers and body of [`request_parts`].
pub open spec fn request_of(r: RequestDef, s: RequestBuilderState) -> bool {
    &&& r.method@ == s.method@
    &&& r.base_url@ == s.base_url@
    &&& r.path_template@ == s.path_template@
    &&& pairs_view(r.path_params@) == request_parts(rows_view(s.rows@)).path
    &&& pairs_view(r.query_params@) == request_parts(rows_view(s.rows@)).query
    &&& pairs_view(r.headers@) == request_parts(rows_view(s.rows@)).headers
    &&& opt_text(r.body) == request_parts(rows_view(s.rows@)).body
}

/// Whether `r` is the request the builder describes with the variables `vars` filled
/// into its base URL and into the values of its parameters and headers.
pub open spec fn env_request_of(r: RequestDef, s: RequestBuilderState, vars: Seq<(Seq<char>, Seq<char>)>) -> bool {
    &&& r.method@ == s.method@
    &&& r.base_url@ == fill_vars(s.base_url@, vars)
    &&& r.path_template@ == s.path_template@
    &&& pairs_view(r.path_params@) == fill_pairs(request_parts(rows_view(s.rows@)).path, vars)
    &&& pairs_view(r.query_params@) == fill_pairs(request_parts(rows_view(s.rows@)).query, vars)
    &&& pairs_view(r.headers@) == fill_pairs(request_parts(rows_view(s.rows@)).headers, vars)
    &&& opt_text(r.body) == request_parts(rows_view(s.rows@)).body
}

pub open spec fn opt_text(o: Option<String>) -> Option<Seq<char>> {
    match o {
        Some(s) => Some(s@),
        None => None,
    }
}

/// Whether `s` is the builder for `ep`: its method and path, the rows of
/// [`endpoint_rows`] (laid out with the body last), the first row selected, the
/// parameter pane focused, cursor at 0, no pending key.
pub open spec fn built_from(s: RequestBuilderState, ep: Endpoint, base_url: String, headers: Seq<(String, String)>) -> bool {
    &&& s.method@ == ep.method@
    &&& s.base_url == base_url
    &&& s.path_template@ == ep.path@
    &&& rows_view(s.rows@) == endpoint_rows(ep, headers)
    &&& well_laid_out(rows_view(s.rows@))
    &&& s.selected == 0
    &&& s.focus == FocusedPane::ParamsNav
    &&& s.cursor == 0
    &&& s.pending_key is None
}

impl RequestBuilderState {
    /// Whether `other` has the same method, URL parts and pending key.
    pub open spec fn keeps_frame(self, other: Self) -> bool {
        &&& other.method == self.method
        &&& other.base_url == self.base_url
        &&& other.path_template == self.path_template
        &&& other.pending_key == self.pending_key
    }
}

/// The effect of [`RequestBuilderState::toggle_enabled`]: flips whether the selected
/// parameter is sent, unless it is required; the body row is never toggled.
pub open spec fn toggle_enabled_done(s0: RequestBuilderState, s1: RequestBuilderState) -> bool {
    &&& s1.rows@.len() == s0.rows@.len()
    &&& forall|q: int|
        0 <= q < s0.rows@.len() ==> #[trigger] rows_view(s1.rows@)[q] == if q
            == s0.selected && s0.selected < param_count_of(rows_view(s0.rows@)) && !s0.rows@[q].required {
            FieldRowView { enabled: !s0.rows@[q].enabled, ..rows_view(s0.rows@)[q] }
        } else {
            rows_view(s0.rows@)[q]
        }
    &&& s1.selected == s0.selected
    &&& s1.cursor == s0.cursor
    &&& s1.focus == s0.focus
    &&& s0.keeps_frame(s1)
}

/// The effect of [`RequestBuilderState::next_row`]: selects the next parameter row, stopping at the last.
pub open spec fn next_row_done(s0: RequestBuilderState, s1: RequestBuilderState) -> bool {
    &&& s1.selected == if param_count_of(rows_view(s0.rows@)) > 0 {
        min(s0.selected + 1, param_count_of(rows_view(s0.rows@)) - 1)
    } else {
        s0.selected as int
    }
    &&& s1.rows == s0.rows
    &&& s1.cursor == s0.cursor
    &&& s1.focus == s0.focus
    &&& s0.keeps_frame(s1)
}

/// The effect of [`RequestBuilderState::prev_row`]: selects the previous parameter row, stopping at the first.
pub open spec fn prev_row_done(s0: RequestBuilderState, s1: RequestBuilderState) -> bool {
    &&& s1.selected == if s0.selected > 0 {
        s0.selected - 1
    } else {
        0
    }
    &&& s1.rows == s0.rows
    &&& s1.cursor == s0.cursor
    &&& s1.focus == s0.focus
    &&& s0.keeps_frame(s1)
}

/// The effect of [`RequestBuilderState::edit_char`]: types `c` at the cursor into the selected row's value.
pub open spec fn edit_char_done(s0: RequestBuilderState, s1: RequestBuilderState, c: char) -> bool {
    &&& if s0.selected < s0.rows@.len() {
        &&& rows_view(s1.rows@) == rows_view(s0.rows@).update(
            s0.selected as int,
            FieldRowView {
                value: typed(s0.rows@[s0.selected as int].value@, s0.cursor as int, c),
                ..rows_view(s0.rows@)[s0.selected as int]
            },
        )
        &&& s1.cursor == s0.cursor + 1
    } else {
        &&& s1.rows == s0.rows
        &&& s1.cursor == s0.cursor
    }
    &&& s1.selected == s0.selected
    &&& s1.focus == s0.focus
    &&& s0.keeps_frame(s1)
}

/// The effect of [`RequestBuilderState::edit_backspace`]: deletes the character before the cursor in the selected row's value.
pub open spec fn edit_backspace_done(s0: RequestBuilderState, s1: RequestBuilderState) -> bool {
    &&& if s0.selected < s0.rows@.len() && s0.cursor > 0 {
        &&& rows_view(s1.rows@) == rows_view(s0.rows@).update(
            s0.selected as int,
            FieldRowView {
                value: s0.rows@[s0.selected as int].value@.remove(s0.cursor - 1),
                ..rows_view(s0.rows@)[s0.selected as int]
            },
        )
        &&& s1.cursor == s0.cursor - 1
    } else {
        &&& s1.rows == s0.rows
        &&& s1.cursor == s0.cursor
    }
    &&& s1.selected == s0.selected
    &&& s1.focus == s0.focus
    &&& s0.keeps_frame(s1)
}

/// The effect of [`RequestBuilderState::edit_body_char`]: types `c` at the cursor into the body.
pub open spec fn edit_body_char_done(s0: RequestBuilderState, s1: RequestBuilderState, c: char) -> bool {
    &&& match body_index(rows_view(s0.rows@)) {
        Some(b) => {
            &&& rows_view(s1.rows@) == rows_view(s0.rows@).update(
                b,
                FieldRowView {
                    value: typed(body_text(rows_view(s0.rows@)), s0.cursor as int, c),
                    ..rows_view(s0.rows@)[b]
                },
            )
            &&& s1.cursor == s0.cursor + 1
        },
        None => {
            &&& s1.rows == s0.rows
            &&& s1.cursor == s0.cursor
        },
    }
    &&& s1.selected == s0.selected
    &&& s1.focus == s0.focus
    &&& s0.keeps_frame(s1)
}

/// The effect of [`RequestBuilderState::edit_body_backspace`]: deletes the character before the cursor in the body.
pub open spec fn edit_body_backspace_done(s0: RequestBuilderState, s1: RequestBuilderState) -> bool {
    &&& match body_index(rows_view(s0.rows@)) {
        Some(b) => if s0.cursor > 0 {
            &&& rows_view(s1.rows@) == rows_view(s0.rows@).update(
                b,
                FieldRowView {
                    value: body_text(rows_view(s0.rows@)).remove(s0.cursor - 1),
                    ..rows_view(s0.rows@)[b]
                },
            )
            &&& s1.cursor == s0.cursor - 1
        } else {
            &&& s1.rows == s0.rows
            &&& s1.cursor == s0.cursor
        },
        None => {
            &&& s1.rows == s0.rows
            &&& s1.cursor == s0.cursor
        },
    }
    &&& s1.selected == s0.selected
    &&& s1.focus == s0.focus
    &&& s0.keeps_frame(s1)
}

/// The effect of [`RequestBuilderState::cursor_left`]: moves the cursor one character left, stopping at the start.
pub open spec fn cursor_left_done(s0: RequestBuilderState, s1: RequestBuilderState) -> bool {
    &&& s1.cursor == if s0.cursor > 0 { s0.cursor - 1 } else { 0 }
    &&& s1.rows == s0.rows
    &&& s1.selected == s0.selected
    &&& s1.focus == s0.focus
    &&& s0.keeps_frame(s1)
}

/// The effect of [`RequestBuilderState::cursor_right`]: moves the cursor one character right, stopping at the end of the body.
pub open spec fn cursor_right_done(s0: RequestBuilderState, s1: RequestBuilderState) -> bool {
    &&& s1.cursor == if s0.cursor < body_text(rows_view(s0.rows@)).len() {
        s0.cursor + 1
    } else {
        s0.cursor as int
    }
    &&& s1.rows == s0.rows
    &&& s1.selected == s0.selected
    &&& s1.focus == s0.focus
    &&& s0.keeps_frame(s1)
}

/// The effect of [`RequestBuilderState::cursor_up`]: moves the cursor to the same column of the previous line (see [`up_pos`]).
pub open spec fn cursor_up_done(s0: RequestBuilderState, s1: RequestBuilderState) -> bool {
    &&& s1.cursor == up_pos(body_text(rows_view(s0.rows@)), s0.cursor as int)
    &&& s1.cursor <= body_text(rows_view(s0.rows@)).len()
    &&& s1.rows == s0.rows
    &&& s1.selected == s0.selected
    &&& s1.focus == s0.focus
    &&& s0.keeps_frame(s1)
}

/// The effect of [`RequestBuilderState::cursor_down`]: moves the cursor to the same column of the next line (see [`down_pos`]).
pub open spec fn cursor_down_done(s0: RequestBuilderState, s1: RequestBuilderState) -> bool {
    &&& s1.cursor == down_pos(body_text(rows_view(s0.rows@)), s0.cursor as int)
    &&& s1.cursor <= body_text(rows_view(s0.rows@)).len()
    &&& s1.rows == s0.rows
    &&& s1.selected == s0.selected
    &&& s1.focus == s0.focus
    &&& s0.keeps_frame(s1)
}

/// The effect of [`RequestBuilderState::cursor_line_start`]: moves the cursor to the start of its line.
pub open spec fn cursor_line_start_done(s0: RequestBuilderState, s1: RequestBuilderState) -> bool {
    &&& s1.cursor == line_start(body_text(rows_view(s0.rows@)), s0.cursor as int)
    &&& s1.cursor <= s0.cursor
    &&& s1.rows == s0.rows
    &&& s1.selected == s0.selected
    &&& s1.focus == s0.focus
    &&& s0.keeps_frame(s1)
}

/// The effect of [`RequestBuilderState::cursor_line_end`]: moves the cursor to the end of its line.
pub open spec fn cursor_line_end_done(s0: RequestBuilderState, s1: RequestBuilderState) -> bool {
    &&& s1.cursor == line_end(body_text(rows_view(s0.rows@)), s0.cursor as int)
    &&& s1.cursor <= body_text(rows_view(s0.rows@)).len()
    &&& s1.rows == s0.rows
    &&& s1.selected == s0.selected
    &&& s1.focus == s0.focus
    &&& s0.keeps_frame(s1)
}

/// The effect of [`RequestBuilderState::body_goto_top`]: moves the cursor to the start of the body.
pub open spec fn body_goto_top_done(s0: RequestBuilderState, s1: RequestBuilderState) -> bool {
    &&& s1.cursor == 0
    &&& s1.rows == s0.rows
    &&& s1.selected == s0.selected
    &&& s1.focus == s0.focus
    &&& s0.keeps_frame(s1)
}

/// The effect of [`RequestBuilderState::body_goto_bottom`]: moves the cursor to the start of the last line of the body.
pub open spec fn body_goto_bottom_done(s0: RequestBuilderState, s1: RequestBuilderState) -> bool {
    &&& s1.cursor == line_start(
        body_text(rows_view(s0.rows@)),
        body_text(rows_view(s0.rows@)).len() as int,
    )
    &&& s1.cursor <= body_text(rows_view(s0.rows@)).len()
    &&& s1.rows == s0.rows
    &&& s1.selected == s0.selected
    &&& s1.focus == s0.focus
    &&& s0.keeps_frame(s1)
}

/// The effect of [`RequestBuilderState::body_delete_line`]: deletes the line under the cursor (see [`line_span`]); the cursor goes to where the line began.
pub open spec fn body_delete_line_done(s0: RequestBuilderState, s1: RequestBuilderState) -> bool {
    &&& match body_index(rows_view(s0.rows@)) {
        Some(b) => {
            let cs = body_text(rows_view(s0.rows@));
            let (a, e) = line_span(cs, s0.cursor as int);
            &&& rows_view(s1.rows@) == rows_view(s0.rows@).update(
                b,
                FieldRowView { value: cut(cs, a, e), ..rows_view(s0.rows@)[b] },
            )
            &&& s1.cursor == min(a, cut(cs, a, e).len() as int)
        },
        None => {
            &&& s1.rows == s0.rows
            &&& s1.cursor == s0.cursor
        },
    }
    &&& s1.selected == s0.selected
    &&& s1.focus == s0.focus
    &&& s0.keeps_frame(s1)
}

/// The effect of [`RequestBuilderState::body_delete_word`]: deletes the word at the cursor (see [`word_end`]); nothing happens past the end of the body.
pub open spec fn body_delete_word_done(s0: RequestBuilderState, s1: RequestBuilderState) -> bool {
    &&& match body_index(rows_view(s0.rows@)) {
        Some(b) => {
            let cs = body_text(rows_view(s0.rows@));
            let start = s0.cursor as int;
            if start < cs.len() && word_end(cs, start) > start {
                rows_view(s1.rows@) == rows_view(s0.rows@).update(
                    b,
                    FieldRowView {
                        value: cut(cs, start, word_end(cs, start)),
                        ..rows_view(s0.rows@)[b]
                    },
                )
            } else {
                s1.rows == s0.rows
            }
        },
        None => s1.rows == s0.rows,
    }
    &&& s1.cursor == s0.cursor
    &&& s1.selected == s0.selected
    &&& s1.focus == s0.focus
    &&& s0.keeps_frame(s1)
}

impl RequestBuilderState {
    /// The builder for an endpoint: a row per parameter (required ones enabled, optional
    /// ones disabled), a row per default header (enabled), and the body row last with the
    /// indented example; nothing selected but the first row, cursor at 0.
    pub fn from_endpoint(ep: &Endpoint, base_url: String, default_headers: &Vec<(String, String)>) -> (s: Self)
        ensures
            built_from(s, *ep, base_url, default_headers@),
    {
        let mut rows: Vec<FieldRow> = Vec::new();
        let mut i: usize = 0;
        while i < ep.parameters.len()
            invariant
                i <= ep.parameters@.len(),
                rows_view(rows@) == ep.parameters@.take(i as int).map_values(|p: ResolvedParam| param_row(p)),
            decreases ep.parameters@.len() - i,
        {
            let p = &ep.parameters[i];
            let ghost before = rows_view(rows@);
            rows.push(
                FieldRow {
                    kind: kind_for(&p.location),
                    name: p.name.clone(),
                    type_label: p.schema_type.clone(),
                    value: value_to_string(&p.example),
                    required: p.required,
                    enabled: p.required,
                },
            );
            assert(rows@.last()@ == param_row(ep.parameters@[i as int]));
            assert(rows_view(rows@) =~= before.push(param_row(ep.parameters@[i as int])));
            assert(ep.parameters@.take(i + 1) =~= ep.parameters@.take(i as int).push(ep.parameters@[i as int]));
            assert(rows_view(rows@) =~= ep.parameters@.take(i + 1).map_values(|p: ResolvedParam| param_row(p)));
            i = i + 1;
        }
        assert(ep.parameters@.take(ep.parameters@.len() as int) =~= ep.parameters@);
        let ghost prefix = rows_view(rows@);
        let mut j: usize = 0;
        while j < default_headers.len()
            invariant
                j <= default_headers@.len(),
                rows_view(rows@) == prefix + default_headers@.take(j as int).map_values(|h: (String, String)| header_row(h)),
            decreases default_headers@.len() - j,
        {
            let ghost before = rows_view(rows@);
            rows.push(
                FieldRow {
                    kind: RowKind::Header,
                    name: default_headers[j].0.clone(),
                    type_label: String::from_str("string"),
                    value: default_headers[j].1.clone(),
                    required: false,
                    enabled: true,
                },
            );
            assert(rows@.last()@ == header_row(default_headers@[j as int]));
            assert(rows_view(rows@) =~= before.push(header_row(default_headers@[j as int])));
            assert(default_headers@.take(j + 1) =~= default_headers@.take(j as int).push(default_headers@[j as int]));
            assert(rows_view(rows@) =~= prefix + default_headers@.take(j + 1).map_values(|h: (String, String)| header_row(h)));
            j = j + 1;
        }
        assert(default_headers@.take(default_headers@.len() as int) =~= default_headers@);
        let ghost middle = rows_view(rows@);
        if let Some(body) = &ep.request_body {
            rows.push(
                FieldRow {
                    kind: RowKind::Body,
                    name: String::from_str("body"),
                    type_label: body.content_type.clone(),
                    value: to_pretty_string(&body.example),
                    required: false,
                    enabled: true,
                },
            );
        }
        assert(rows_view(rows@) =~= endpoint_rows(*ep, default_headers@));
        proof {
            reveal_strlit("path");
            reveal_strlit("header");
            assert forall|q: int| 0 <= q < middle.len() implies #[trigger] middle[q].kind != RowKind::Body by {
                if q < prefix.len() {
                    assert(prefix[q] == param_row(ep.parameters@[q]));
                } else {
                    assert(middle[q] == header_row(default_headers@[q - prefix.len()]));
                }
            }
            assert forall|q: int| 0 <= q < rows@.len() && #[trigger] rows_view(rows@)[q].kind == RowKind::Body implies q == rows@.len() - 1 by {
                if q < middle.len() {
                    assert(rows_view(rows@)[q] == middle[q]);
                }
            }
        }
        RequestBuilderState {
            method: ep.method.clone(),
            base_url,
            path_template: ep.path.clone(),
            rows,
            selected: 0,
            focus: FocusedPane::ParamsNav,
            cursor: 0,
            pending_key: None,
        }
    }

    /// Number of rows shown in the parameter table (all but the body).
    pub fn param_count(&self) -> (n: usize)
        ensures
            n == param_count_of(rows_view(self.rows@)),
    {
        let ghost rv = rows_view(self.rows@);
        let mut n: usize = 0;
        let mut i: usize = 0;
        while i < self.rows.len()
            invariant
                rv == rows_view(self.rows@),
                i <= self.rows@.len(),
                n == param_count_of(rv.take(i as int)),
                n <= i,
            decreases self.rows@.len() - i,
        {
            assert(rv.take(i + 1).drop_last() =~= rv.take(i as int));
            if self.rows[i].kind != RowKind::Body {
                n = n + 1;
            }
            i = i + 1;
        }
        assert(rv.take(rv.len() as int) =~= rv);
        n
    }

    /// Whether there is a body row.
    pub fn has_body(&self) -> (b: bool)
        ensures
            b == (body_index(rows_view(self.rows@)) is Some),
    {
        find_body(&self.rows).is_some()
    }

    /// The characters of the body.
    pub fn body_chars(&self) -> (cs: Vec<char>)
        ensures
            cs@ == body_text(rows_view(self.rows@)),
    {
        match find_body(&self.rows) {
            Some(i) => chars_of(self.rows[i].value.as_str()),
            None => Vec::new(),
        }
    }

    /// Moves the focus to the body in normal mode, with the cursor brought within the
    /// body text.
    pub fn focus_body(&mut self)
        ensures
            *final(self) == (RequestBuilderState {
                focus: FocusedPane::BodyNormal,
                cursor: min(old(self).cursor as int, body_text(rows_view(old(self).rows@)).len() as int) as usize,
                ..*old(self)
            }),
    {
        let len = self.body_chars().len();
        if self.cursor > len {
            self.cursor = len;
        }
        self.focus = FocusedPane::BodyNormal;
    }

    /// Flips whether the selected optional parameter is sent; required parameters and
    /// the body row are left as they are.
    pub fn toggle_enabled(&mut self)
        ensures
            toggle_enabled_done(*old(self), *final(self)),
    {
        let i = self.selected;
        if i < self.rows.len() && i < self.param_count() && !self.rows[i].required {
            let row = FieldRow {
                kind: self.rows[i].kind,
                name: self.rows[i].name.clone(),
                type_label: self.rows[i].type_label.clone(),
                value: self.rows[i].value.clone(),
                required: self.rows[i].required,
                enabled: !self.rows[i].enabled,
            };
            self.rows.set(i, row);
        }
    }

    /// Selects the next parameter row, stopping at the last.
    pub fn next_row(&mut self)
        requires
            param_count_of(rows_view(old(self).rows@)) > 0 ==> old(self).selected < usize::MAX,
        ensures
            next_row_done(*old(self), *final(self)),
    {
        let n = self.param_count();
        if n > 0 {
            let next = self.selected + 1;
            self.selected = if next < n - 1 { next } else { n - 1 };
        }
    }

    /// Selects the previous parameter row, stopping at the first.
    pub fn prev_row(&mut self)
        ensures
            prev_row_done(*old(self), *final(self)),
    {
        if self.selected > 0 {
            self.selected = self.selected - 1;
        }
    }

    /// Types `c` at the cursor into the selected row's value.
    pub fn edit_char(&mut self, c: char)
        requires
            old(self).selected < old(self).rows@.len() ==> old(self).cursor < usize::MAX,
        ensures
            edit_char_done(*old(self), *final(self), c),
    {
        let i = self.selected;
        if i < self.rows.len() {
            let cs = chars_of(self.rows[i].value.as_str());
            let at = if self.cursor < cs.len() { self.cursor } else { cs.len() };
            let v = insert_exec(&cs, at, c);
            set_value(&mut self.rows, i, string_of(v.as_slice()));
            self.cursor = self.cursor + 1;
        }
    }

    /// Deletes the character before the cursor in the selected row's value.
    pub fn edit_backspace(&mut self)
        requires
            old(self).selected < old(self).rows@.len() && old(self).cursor > 0 ==> old(self).cursor
                <= old(self).rows@[old(self).selected as int].value@.len(),
        ensures
            edit_backspace_done(*old(self), *final(self)),
    {
        let i = self.selected;
        if i < self.rows.len() && self.cursor > 0 {
            let cs = chars_of(self.rows[i].value.as_str());
            let v = cut_exec(&cs, self.cursor - 1, self.cursor);
            assert(v@ =~= cs@.remove(self.cursor - 1));
            set_value(&mut self.rows, i, string_of(v.as_slice()));
            self.cursor = self.cursor - 1;
        }
    }

    /// Types `c` at the cursor into the body.
    pub fn edit_body_char(&mut self, c: char)
        requires
            body_index(rows_view(old(self).rows@)) is Some ==> old(self).cursor < usize::MAX,
        ensures
            edit_body_char_done(*old(self), *final(self), c),
    {
        if let Some(i) = find_body(&self.rows) {
            let cs = chars_of(self.rows[i].value.as_str());
            let at = if self.cursor < cs.len() { self.cursor } else { cs.len() };
            let v = insert_exec(&cs, at, c);
            set_value(&mut self.rows, i, string_of(v.as_slice()));
            self.cursor = self.cursor + 1;
        }
    }

    /// Deletes the character before the cursor in the body.
    pub fn edit_body_backspace(&mut self)
        requires
            body_index(rows_view(old(self).rows@)) is Some && old(self).cursor > 0 ==> old(self).cursor
                <= body_text(rows_view(old(self).rows@)).len(),
        ensures
            edit_body_backspace_done(*old(self), *final(self)),
    {
        if let Some(i) = find_body(&self.rows) {
            if self.cursor > 0 {
                let cs = chars_of(self.rows[i].value.as_str());
                let v = cut_exec(&cs, self.cursor - 1, self.cursor);
                assert(v@ =~= cs@.remove(self.cursor - 1));
                set_value(&mut self.rows, i, string_of(v.as_slice()));
                self.cursor = self.cursor - 1;
            }
        }
    }

    /// Moves the cursor one character left, stopping at the start.
    pub fn cursor_left(&mut self)
        ensures
            cursor_left_done(*old(self), *final(self)),
    {
        if self.cursor > 0 {
            self.cursor = self.cursor - 1;
        }
    }

    /// Moves the cursor one character right, stopping at the end of the body.
    pub fn cursor_right(&mut self)
        ensures
            cursor_right_done(*old(self), *final(self)),
    {
        let len = self.body_chars().len();
        if self.cursor < len {
            self.cursor = self.cursor + 1;
        }
    }

    /// Moves the cursor to the same column of the previous line (see [`up_pos`]).
    pub fn cursor_up(&mut self)
        requires
            old(self).cursor <= body_text(rows_view(old(self).rows@)).len(),
        ensures
            cursor_up_done(*old(self), *final(self)),
    {
        let chars = self.body_chars();
        let line_start = line_start_of(&chars, self.cursor);
        if line_start == 0 {
            return;
        }
        proof {
            lemma_last_nl_bound(chars@, line_start - 1);
        }
        let col = self.cursor - line_start;
        let prev_line_end = line_start - 1;
        let prev_line_start = line_start_of(&chars, prev_line_end);
        let prev_line_len = prev_line_end - prev_line_start;
        self.cursor = prev_line_start + if col < prev_line_len { col } else { prev_line_len };
    }

    /// Moves the cursor to the same column of the next line (see [`down_pos`]).
    pub fn cursor_down(&mut self)
        requires
            old(self).cursor <= body_text(rows_view(old(self).rows@)).len(),
        ensures
            cursor_down_done(*old(self), *final(self)),
    {
        let chars = self.body_chars();
        proof {
            lemma_next_nl_bound(chars@, self.cursor as int);
        }
        if let Some(nl) = next_nl_of(&chars, self.cursor) {
            let line_start = line_start_of(&chars, self.cursor);
            let col = self.cursor - line_start;
            let next_start = nl + 1;
            proof {
                lemma_next_nl_bound(chars@, next_start as int);
            }
            let next_end = match next_nl_of(&chars, next_start) {
                Some(e) => e,
                None => chars.len(),
            };
            let span = next_end - next_start;
            self.cursor = next_start + if col < span { col } else { span };
        }
    }

    /// Moves the cursor to the start of its line.
    pub fn cursor_line_start(&mut self)
        requires
            old(self).cursor <= body_text(rows_view(old(self).rows@)).len(),
        ensures
            cursor_line_start_done(*old(self), *final(self)),
    {
        let chars = self.body_chars();
        self.cursor = line_start_of(&chars, self.cursor);
    }

    /// Moves the cursor to the end of its line.
    pub fn cursor_line_end(&mut self)
        requires
            old(self).cursor <= body_text(rows_view(old(self).rows@)).len(),
        ensures
            cursor_line_end_done(*old(self), *final(self)),
    {
        let chars = self.body_chars();
        proof {
            lemma_next_nl_bound(chars@, self.cursor as int);
        }
        self.cursor = match next_nl_of(&chars, self.cursor) {
            Some(e) => e,
            None => chars.len(),
        };
    }

    /// Moves the cursor to the start of the body.
    pub fn body_goto_top(&mut self)
        ensures
            body_goto_top_done(*old(self), *final(self)),
    {
        self.cursor = 0;
    }

    /// Moves the cursor to the start of the last line of the body.
    pub fn body_goto_bottom(&mut self)
        ensures
            body_goto_bottom_done(*old(self), *final(self)),
    {
        let chars = self.body_chars();
        self.cursor = line_start_of(&chars, chars.len());
    }

    /// Deletes the line under the cursor (see [`line_span`]); the cursor goes to where
    /// the line began.
    pub fn body_delete_line(&mut self)
        requires
            body_index(rows_view(old(self).rows@)) is Some ==> old(self).cursor <= body_text(
                rows_view(old(self).rows@),
            ).len(),
        ensures
            body_delete_line_done(*old(self), *final(self)),
    {
        if let Some(i) = find_body(&self.rows) {
            let chars = chars_of(self.rows[i].value.as_str());
            let line_start = line_start_of(&chars, self.cursor);
            proof {
                lemma_next_nl_bound(chars@, line_start as int);
            }
            let line_end = match next_nl_of(&chars, line_start) {
                Some(e) => e + 1,
                None => chars.len(),
            };
            let (del_start, del_end) = if line_end == chars.len() && line_start > 0 {
                (line_start - 1, chars.len())
            } else {
                (line_start, line_end)
            };
            let v = cut_exec(&chars, del_start, del_end);
            let n = v.len();
            set_value(&mut self.rows, i, string_of(v.as_slice()));
            self.cursor = if del_start < n { del_start } else { n };
        }
    }

    /// Deletes the word at the cursor (see [`word_end`]); nothing happens past the end
    /// of the body.
    pub fn body_delete_word(&mut self)
        ensures
            body_delete_word_done(*old(self), *final(self)),
    {
        if let Some(i) = find_body(&self.rows) {
            let chars = chars_of(self.rows[i].value.as_str());
            let start = self.cursor;
            if start >= chars.len() {
                return;
            }
            proof {
                lemma_run_ends(chars@, start as int);
            }
            let mut end = start;
            if char_is_alphanumeric(chars[end]) {
                while end < chars.len() && char_is_alphanumeric(chars[end])
                    invariant
                        start <= end <= chars@.len(),
                        alnum_run_end(chars@, start as int) == alnum_run_end(chars@, end as int),
                    decreases chars@.len() - end,
                {
                    end = end + 1;
                }
                proof {
                    lemma_run_ends(chars@, end as int);
                }
                let ghost mid = end;
                while end < chars.len() && chars[end] == ' '
                    invariant
                        mid <= end <= chars@.len(),
                        space_run_end(chars@, mid as int) == space_run_end(chars@, end as int),
                    decreases chars@.len() - end,
                {
                    end = end + 1;
                }
            } else if chars[end] == ' ' {
                while end < chars.len() && chars[end] == ' '
                    invariant
                        start <= end <= chars@.len(),
                        space_run_end(chars@, start as int) == space_run_end(chars@, end as int),
                    decreases chars@.len() - end,
                {
                    end = end + 1;
                }
            }
            if end > start {
                let v = cut_exec(&chars, start, end);
                set_value(&mut self.rows, i, string_of(v.as_slice()));
            }
        }
    }

    /// The request the rows describe (see [`request_parts`]).
    pub fn build_request(&self) -> (r: RequestDef)
        ensures
            request_of(r, *self),
    {
        let ghost rv = rows_view(self.rows@);
        let mut path_params: Vec<(String, String)> = Vec::new();
        let mut query_params: Vec<(String, String)> = Vec::new();
        let mut headers: Vec<(String, String)> = Vec::new();
        let mut body: Option<String> = None;
        let mut i: usize = 0;
        while i < self.rows.len()
            invariant
                rv == rows_view(self.rows@),
                i <= self.rows@.len(),
                pairs_view(path_params@) == request_parts(rv.take(i as int)).path,
                pairs_view(query_params@) == request_parts(rv.take(i as int)).query,
                pairs_view(headers@) == request_parts(rv.take(i as int)).headers,
                opt_text(body) == request_parts(rv.take(i as int)).body,
            decreases self.rows@.len() - i,
        {
            let row = &self.rows[i];
            assert(rv.take(i + 1).drop_last() =~= rv.take(i as int));
            assert(rv.take(i + 1).last() == row@);
            match row.kind {
                RowKind::PathParam => {
                    if row.enabled {
                        insert_pair(&mut path_params, row.name.clone(), row.value.clone());
                    }
                },
                RowKind::QueryParam => {
                    if row.enabled && !row.value.as_str().is_empty() {
                        insert_pair(&mut query_params, row.name.clone(), row.value.clone());
                    }
                },
                RowKind::Header => {
                    if row.enabled && !row.value.as_str().is_empty() {
                        insert_pair(&mut headers, row.name.clone(), row.value.clone());
                    }
                },
                RowKind::Body => {
                    body = if is_json(row.value.as_str()) {
                        Some(row.value.clone())
                    } else {
                        None
                    };
                },
            }
            i = i + 1;
        }
        assert(rv.take(rv.len() as int) =~= rv);
        RequestDef {
            method: self.method.clone(),
            base_url: self.base_url.clone(),
            path_template: self.path_template.clone(),
            path_params,
            query_params,
            headers,
            body,
        }
    }
}

impl Default for RequestBuilderState {
    fn default() -> (s: Self)
        ensures
            s.method@ == "GET"@,
            s.base_url@.len() == 0,
            s.path_template@.len() == 0,
            s.rows@.len() == 0,
            s.selected == 0,
            s.focus == FocusedPane::ParamsNav,
            s.cursor == 0,
            s.pending_key is None,
    {
        RequestBuilderState {
            method: String::from_str("GET"),
            base_url: String::new(),
            path_template: String::new(),
            rows: Vec::new(),
            selected: 0,
            focus: FocusedPane::ParamsNav,
            cursor: 0,
            pending_key: None,
        }
    }
}

} // verus!
