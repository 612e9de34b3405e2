//! Properties of the library as a whole: what its operations keep, undo or promise
//! across calls.

use vstd::prelude::*;
use crate::app::{App, Action, BgMsg, Key, Screen, key_done, quit_combo, bg_done, key_index, key_names, texts, without_text};
use crate::openapi::ApiSpec;
use crate::client::{RequestDef, fill_pairs};
use crate::views::request_builder::{env_request_of, request_of, request_parts};
use crate::app::screens::{server_list_done, endpoint_list_done};
use crate::config::{ServerEntry, without_name};
use crate::views::env_picker::{EnvPickerState, picker_for, chosen};
use crate::views::request_builder::{
    RequestBuilderState, FocusedPane, FieldRowView, rows_view, edit_char_done, edit_backspace_done, last_nl_before,
    line_start, line_end, next_nl, up_pos, min, body_index, body_text, param_count_of, typed,
    edit_body_char_done, edit_body_backspace_done, toggle_enabled_done, next_row_done, prev_row_done,
    cursor_left_done, cursor_right_done, cursor_up_done, cursor_down_done, cursor_line_start_done,
    cursor_line_end_done, body_goto_top_done, body_goto_bottom_done,
};
use crate::theme::{Theme, theme_for, default_theme, blank_theme_config};
use crate::config::HistoryEntry;
use crate::views::history::recent_matching;
use crate::app::{curl_lines, strip_suffixes};
use crate::openapi::Endpoint;
use crate::json::seq_lt;
use crate::views::endpoint_list::{SortMode, sorted, place, sort_key, shown};

verus! {

// ── Configuration ────────────────────────────────────────────────────────────

proof fn lemma_without_name_drops(s: Seq<ServerEntry>, name: Seq<char>)
    ensures
        forall|i: int| 0 <= i < without_name(s, name).len() ==> #[trigger] without_name(s, name)[i].name@ != name,
        forall|j: int| 0 <= j < s.len() && s[j].name@ != name ==> without_name(s, name).contains(#[trigger] s[j]),
    decreases s.len(),
{
    if s.len() > 0 {
        let a = without_name(s.drop_last(), name);
        lemma_without_name_drops(s.drop_last(), name);
        assert forall|i: int| 0 <= i < without_name(s, name).len() implies #[trigger] without_name(s, name)[i].name@ != name by {
            if i < a.len() {
                assert(without_name(s, name)[i] == a[i]);
            }
        }
        assert forall|j: int| 0 <= j < s.len() && s[j].name@ != name implies without_name(s, name).contains(#[trigger] s[j]) by {
            if j < s.len() - 1 {
                assert(s.drop_last()[j] == s[j]);
                let k = choose|k: int| 0 <= k < a.len() && a[k] == s[j];
                assert(without_name(s, name)[k] == s[j]);
            } else {
                assert(without_name(s, name)[a.len() as int] == s[j]);
            }
        }
    }
}

/// Adding a server leaves exactly one server of its name, the added one, last; every
/// server of another name is kept.
pub proof fn law_add_server_replaces(servers: Seq<ServerEntry>, e: ServerEntry)
    ensures
        ({
            let r = without_name(servers, e.name@).push(e);
            &&& r.last() == e
            &&& forall|i: int| 0 <= i < r.len() - 1 ==> #[trigger] r[i].name@ != e.name@
            &&& forall|j: int| 0 <= j < servers.len() && servers[j].name@ != e.name@ ==> r.contains(#[trigger] servers[j])
        }),
{
    let w = without_name(servers, e.name@);
    lemma_without_name_drops(servers, e.name@);
    let r = w.push(e);
    assert forall|i: int| 0 <= i < r.len() - 1 implies #[trigger] r[i].name@ != e.name@ by {
        assert(r[i] == w[i]);
    }
    assert forall|j: int| 0 <= j < servers.len() && servers[j].name@ != e.name@ implies r.contains(#[trigger] servers[j]) by {
        assert(w.contains(servers[j]));
        let k = choose|k: int| 0 <= k < w.len() && w[k] == servers[j];
        assert(r[k] == servers[j]);
    }
}

/// Removing a server leaves no server of that name and keeps every other one.
pub proof fn law_remove_server_removes(servers: Seq<ServerEntry>, name: Seq<char>)
    ensures
        forall|i: int| 0 <= i < without_name(servers, name).len() ==> #[trigger] without_name(servers, name)[i].name@ != name,
        forall|j: int| 0 <= j < servers.len() && servers[j].name@ != name ==> without_name(servers, name).contains(#[trigger] servers[j]),
{
    lemma_without_name_drops(servers, name);
}

/// Whether no two servers share a name.
pub open spec fn names_distinct(servers: Seq<ServerEntry>) -> bool {
    forall|i: int, j: int| 0 <= i < j < servers.len() ==> #[trigger] servers[i].name@ != #[trigger] servers[j].name@
}

proof fn lemma_without_name_from(s: Seq<ServerEntry>, name: Seq<char>)
    ensures
        forall|i: int| 0 <= i < without_name(s, name).len() ==> s.contains(#[trigger] without_name(s, name)[i]),
    decreases s.len(),
{
    if s.len() > 0 {
        let w = without_name(s.drop_last(), name);
        lemma_without_name_from(s.drop_last(), name);
        assert forall|i: int| 0 <= i < without_name(s, name).len() implies s.contains(#[trigger] without_name(s, name)[i]) by {
            if i < w.len() {
                assert(without_name(s, name)[i] == w[i]);
                let k = choose|k: int| 0 <= k < s.drop_last().len() && s.drop_last()[k] == w[i];
                assert(s[k] == w[i]);
            } else {
                assert(without_name(s, name)[i] == s[s.len() - 1]);
            }
        }
    }
}

proof fn lemma_without_name_distinct(s: Seq<ServerEntry>, name: Seq<char>)
    requires
        names_distinct(s),
    ensures
        names_distinct(without_name(s, name)),
    decreases s.len(),
{
    if s.len() > 0 {
        let d = s.drop_last();
        let w = without_name(d, name);
        assert(names_distinct(d)) by {
            assert forall|i: int, j: int| 0 <= i < j < d.len() implies #[trigger] d[i].name@ != #[trigger] d[j].name@ by {
                assert(d[i] == s[i] && d[j] == s[j]);
            }
        }
        lemma_without_name_distinct(d, name);
        lemma_without_name_from(d, name);
        if s.last().name@ != name {
            let r = w.push(s.last());
            assert(without_name(s, name) == r);
            assert forall|i: int, j: int| 0 <= i < j < r.len() implies #[trigger] r[i].name@ != #[trigger] r[j].name@ by {
                if j == r.len() - 1 {
                    assert(r[i] == w[i]);
                    assert(d.contains(w[i]));
                    let k = choose|k: int| 0 <= k < d.len() && d[k] == w[i];
                    assert(s[k] == w[i]);
                } else {
                    assert(r[i] == w[i] && r[j] == w[j]);
                }
            }
        } else {
            assert(without_name(s, name) == w);
        }
    }
}

proof fn lemma_without_name_absent(s: Seq<ServerEntry>, name: Seq<char>)
    requires
        forall|j: int| 0 <= j < s.len() ==> #[trigger] s[j].name@ != name,
    ensures
        without_name(s, name) == s,
    decreases s.len(),
{
    if s.len() > 0 {
        lemma_without_name_absent(s.drop_last(), name);
        assert(s.drop_last().push(s.last()) == s);
    }
}

proof fn lemma_without_name_one_less(s: Seq<ServerEntry>, name: Seq<char>, i: int)
    requires
        names_distinct(s),
        0 <= i < s.len(),
        s[i].name@ == name,
    ensures
        without_name(s, name).len() == s.len() - 1,
    decreases s.len(),
{
    let d = s.drop_last();
    assert(names_distinct(d)) by {
        assert forall|x: int, y: int| 0 <= x < y < d.len() implies #[trigger] d[x].name@ != #[trigger] d[y].name@ by {
            assert(d[x] == s[x] && d[y] == s[y]);
        }
    }
    if i == s.len() - 1 {
        assert forall|j: int| 0 <= j < d.len() implies #[trigger] d[j].name@ != name by {
            assert(d[j] == s[j]);
        }
        lemma_without_name_absent(d, name);
    } else {
        assert(d[i] == s[i]);
        lemma_without_name_one_less(d, name, i);
    }
}

/// Adding and removing servers keep their names distinct.
pub proof fn law_names_stay_distinct(servers: Seq<ServerEntry>, e: ServerEntry, name: Seq<char>)
    requires
        names_distinct(servers),
    ensures
        names_distinct(without_name(servers, e.name@).push(e)),
        names_distinct(without_name(servers, name)),
{
    lemma_without_name_distinct(servers, name);
    lemma_without_name_distinct(servers, e.name@);
    lemma_without_name_drops(servers, e.name@);
    let w = without_name(servers, e.name@);
    let r = w.push(e);
    assert forall|i: int, j: int| 0 <= i < j < r.len() implies #[trigger] r[i].name@ != #[trigger] r[j].name@ by {
        assert(r[i] == w[i]);
        if j < w.len() {
            assert(r[j] == w[j]);
        }
    }
}

/// With server names distinct, deleting the selected server keeps the selection on
/// a server whenever one is left.
pub proof fn law_delete_keeps_selection(a: App, b: App, acts: Seq<Action>)
    requires
        names_distinct(a.config.servers@),
        a.server_list.selected < a.config.servers@.len(),
        server_list_done(a, b, Key::Char('d'), acts),
    ensures
        b.config.servers@.len() == a.config.servers@.len() - 1,
        b.config.servers@.len() == 0 || b.server_list.selected < b.config.servers@.len(),
{
    let sel = a.server_list.selected as int;
    lemma_without_name_one_less(a.config.servers@, a.config.servers@[sel].name@, sel);
}

// ── Theme ────────────────────────────────────────────────────────────────────

/// With no override set, every role has its built-in colour.
pub proof fn law_theme_defaults()
    ensures
        theme_for(blank_theme_config()) == default_theme(),
{
}

// ── Environment selector ─────────────────────────────────────────────────────

/// The selector opened on an environment reports that environment as chosen.
pub proof fn law_env_picker_roundtrip(env_count: usize, active: Option<usize>)
    requires
        env_count < usize::MAX,
        active matches Some(i) ==> i < usize::MAX,
    ensures
        chosen(picker_for(env_count, active)) == active,
{
}

// ── Request builder ──────────────────────────────────────────────────────────

proof fn lemma_same_kinds_same_body(r1: Seq<FieldRowView>, r2: Seq<FieldRowView>)
    requires
        r1.len() == r2.len(),
        forall|i: int| 0 <= i < r1.len() ==> #[trigger] r1[i].kind == r2[i].kind,
    ensures
        body_index(r1) == body_index(r2),
    decreases r1.len(),
{
    if r1.len() > 0 {
        assert forall|i: int| 0 <= i < r1.drop_first().len() implies #[trigger] r1.drop_first()[i].kind == r2.drop_first()[i].kind by {
            assert(r1.drop_first()[i] == r1[i + 1]);
            assert(r2.drop_first()[i] == r2[i + 1]);
        }
        lemma_same_kinds_same_body(r1.drop_first(), r2.drop_first());
    }
}

/// Typing a character into the body and deleting it again gives back the body and
/// the cursor.
pub proof fn law_type_then_backspace(s0: RequestBuilderState, s1: RequestBuilderState, s2: RequestBuilderState, c: char)
    requires
        body_index(rows_view(s0.rows@)) is Some,
        s0.cursor <= body_text(rows_view(s0.rows@)).len(),
        edit_body_char_done(s0, s1, c),
        edit_body_backspace_done(s1, s2),
    ensures
        rows_view(s2.rows@) == rows_view(s0.rows@),
        s2.cursor == s0.cursor,
{
    let r0 = rows_view(s0.rows@);
    let b = body_index(r0).unwrap();
    crate::views::request_builder::lemma_body_index(r0);
    let r1 = rows_view(s1.rows@);
    assert forall|i: int| 0 <= i < r0.len() implies #[trigger] r0[i].kind == r1[i].kind by {}
    lemma_same_kinds_same_body(r0, r1);
    let t0 = body_text(r0);
    let t1 = typed(t0, s0.cursor as int, c);
    assert(body_text(r1) == t1);
    assert(t1.remove(s0.cursor as int) =~= t0);
    let r2 = rows_view(s2.rows@);
    assert(r2 =~= r0);
}

/// Typing a character into a parameter value and deleting it again
/// ([`RequestBuilderState::edit_char`] then [`RequestBuilderState::edit_backspace`])
/// gives back the rows and the cursor.
pub proof fn law_type_then_backspace_in_value(s0: RequestBuilderState, s1: RequestBuilderState, s2: RequestBuilderState, c: char)
    requires
        s0.selected < s0.rows@.len(),
        s0.cursor <= s0.rows@[s0.selected as int].value@.len(),
        edit_char_done(s0, s1, c),
        edit_backspace_done(s1, s2),
    ensures
        rows_view(s2.rows@) == rows_view(s0.rows@),
        s2.cursor == s0.cursor,
{
    let i = s0.selected as int;
    let v0 = s0.rows@[i].value@;
    assert(rows_view(s0.rows@).len() == s0.rows@.len());
    assert(rows_view(s1.rows@).len() == s1.rows@.len());
    assert(rows_view(s1.rows@)[i] == s1.rows@[i]@);
    assert(rows_view(s1.rows@)[i].value == typed(v0, s0.cursor as int, c));
    assert(s1.rows@[i].value@ == typed(v0, s0.cursor as int, c));
    assert(typed(v0, s0.cursor as int, c).remove(s0.cursor as int) =~= v0);
    assert(rows_view(s2.rows@) =~= rows_view(s0.rows@));
}

proof fn lemma_no_nl_since_last(cs: Seq<char>, n: int)
    requires
        n <= cs.len(),
    ensures
        forall|j: int| last_nl_before(cs, n) < j < n ==> #[trigger] cs[j] != '\n',
    decreases n,
{
    if n > 0 && cs[n - 1] != '\n' {
        lemma_no_nl_since_last(cs, n - 1);
    }
}

proof fn lemma_last_nl_skip(cs: Seq<char>, m: int, n: int)
    requires
        0 <= m <= n <= cs.len(),
        forall|j: int| m <= j < n ==> #[trigger] cs[j] != '\n',
    ensures
        last_nl_before(cs, n) == last_nl_before(cs, m),
    decreases n - m,
{
    if n > m {
        assert(cs[n - 1] != '\n');
        lemma_last_nl_skip(cs, m, n - 1);
    }
}

proof fn lemma_next_nl_gap(cs: Seq<char>, n: int)
    requires
        0 <= n,
    ensures
        match next_nl(cs, n) {
            Some(e) => forall|j: int| n <= j < e ==> #[trigger] cs[j] != '\n',
            None => forall|j: int| n <= j < cs.len() ==> #[trigger] cs[j] != '\n',
        },
    decreases cs.len() - n,
{
    if n < cs.len() && cs[n] != '\n' {
        lemma_next_nl_gap(cs, n + 1);
    }
}

/// Moving the cursor down a line and back up ([`RequestBuilderState::cursor_down`] then
/// [`RequestBuilderState::cursor_up`]) returns it to where it was, body unchanged, when
/// the next line is long enough to hold its column.
pub proof fn law_down_then_up(s0: RequestBuilderState, s1: RequestBuilderState, s2: RequestBuilderState)
    requires
        s0.cursor <= body_text(rows_view(s0.rows@)).len(),
        ({
            let cs = body_text(rows_view(s0.rows@));
            next_nl(cs, s0.cursor as int) matches Some(nl)
                && line_end(cs, nl + 1) - (nl + 1) >= s0.cursor - line_start(cs, s0.cursor as int)
        }),
        cursor_down_done(s0, s1),
        cursor_up_done(s1, s2),
    ensures
        s2.cursor == s0.cursor,
        s2.rows == s0.rows,
{
    let cs = body_text(rows_view(s0.rows@));
    let c0 = s0.cursor as int;
    let nl = next_nl(cs, c0).unwrap();
    crate::views::request_builder::lemma_next_nl_bound(cs, c0);
    lemma_next_nl_gap(cs, c0);
    let ls = line_start(cs, c0);
    lemma_no_nl_since_last(cs, c0);
    lemma_last_nl_bound_law(cs, c0);
    let k = c0 - ls;
    let d = nl + 1 + k;
    assert(s1.cursor == d);
    // the next line holds no newline before `d`
    lemma_next_nl_gap(cs, nl + 1);
    crate::views::request_builder::lemma_next_nl_bound(cs, nl + 1);
    assert forall|j: int| nl + 1 <= j < d implies #[trigger] cs[j] != '\n' by {}
    lemma_last_nl_skip(cs, nl + 1, d);
    assert(last_nl_before(cs, nl + 1) == nl);
    assert(line_start(cs, d) == nl + 1);
    // the cursor's line holds no newline before `nl`
    assert forall|j: int| ls <= j < nl implies #[trigger] cs[j] != '\n' by {
        if j < c0 {
            assert(last_nl_before(cs, c0) < j);
        }
    }
    lemma_last_nl_skip(cs, c0, nl);
    assert(line_start(cs, nl) == ls);
    assert(up_pos(cs, d) == ls + min(k, nl - ls));
}

proof fn lemma_last_nl_bound_law(cs: Seq<char>, n: int)
    ensures
        -1 <= last_nl_before(cs, n) < (if n > 0 { n } else { 0 }),
    decreases n,
{
    if n > 0 {
        lemma_last_nl_bound_law(cs, n - 1);
    }
}

/// With no environment active, the request sent is the builder's request as written.
pub proof fn law_no_environment_sends_verbatim(r: RequestDef, s: RequestBuilderState)
    requires
        env_request_of(r, s, Seq::empty()),
    ensures
        request_of(r, s),
{
    let p = request_parts(rows_view(s.rows@));
    assert(fill_pairs(p.path, Seq::empty()) =~= p.path);
    assert(fill_pairs(p.query, Seq::empty()) =~= p.query);
    assert(fill_pairs(p.headers, Seq::empty()) =~= p.headers);
}

/// Switching a row on or off never switches off a required row: when every required
/// row is on, it stays so.
pub proof fn law_required_rows_stay_enabled(s0: RequestBuilderState, s1: RequestBuilderState)
    requires
        toggle_enabled_done(s0, s1),
        forall|q: int| 0 <= q < s0.rows@.len() && #[trigger] s0.rows@[q].required ==> s0.rows@[q].enabled,
    ensures
        forall|q: int| 0 <= q < s1.rows@.len() && #[trigger] s1.rows@[q].required ==> s1.rows@[q].enabled,
{
    assert forall|q: int| 0 <= q < s1.rows@.len() && #[trigger] s1.rows@[q].required implies s1.rows@[q].enabled by {
        assert(rows_view(s1.rows@)[q] == s1.rows@[q]@);
        assert(rows_view(s0.rows@)[q] == s0.rows@[q]@);
    }
}

/// Moving between rows keeps the selection on a parameter row.
pub proof fn law_selection_stays_on_parameters(s0: RequestBuilderState, s1: RequestBuilderState)
    requires
        s0.selected < param_count_of(rows_view(s0.rows@)),
        next_row_done(s0, s1) || prev_row_done(s0, s1),
    ensures
        s1.selected < param_count_of(rows_view(s1.rows@)),
{
}

/// Every cursor motion keeps the cursor within the body.
pub proof fn law_motions_stay_in_body(s0: RequestBuilderState, s1: RequestBuilderState)
    requires
        s0.cursor <= body_text(rows_view(s0.rows@)).len(),
        cursor_left_done(s0, s1) || cursor_right_done(s0, s1) || cursor_up_done(s0, s1) || cursor_down_done(s0, s1)
            || cursor_line_start_done(s0, s1) || cursor_line_end_done(s0, s1) || body_goto_top_done(s0, s1)
            || body_goto_bottom_done(s0, s1),
    ensures
        s1.cursor <= body_text(rows_view(s1.rows@)).len(),
{
}

// ── Application ──────────────────────────────────────────────────────────────

/// Ctrl-C and Ctrl-Q quit from every screen, and change nothing else.
pub proof fn law_ctrl_quits(a: App, b: App, key: Key, acts: Seq<Action>)
    requires
        quit_combo(key, true),
        key_done(a, b, key, true, acts),
    ensures
        b == (App { should_quit: true, ..a }),
        acts.len() == 0,
{
}

/// With an error shown, any key but the null key (and the quit keys) dismisses it and
/// does nothing else.
pub proof fn law_error_dismissed_first(a: App, b: App, key: Key, ctrl: bool, acts: Seq<Action>)
    requires
        a.error is Some,
        key != Key::Null,
        !quit_combo(key, ctrl),
        key_done(a, b, key, ctrl, acts),
    ensures
        b == (App { error: None, ..a }),
        acts.len() == 0,
{
}

/// Esc goes back one screen (add-server form and endpoint list to the server list,
/// request builder to the endpoint list, response viewer to the request builder) when
/// the screen has nothing of its own open (no filter, curl popup, detail focus, edit
/// or save dialog), and changes nothing else.
pub proof fn law_escape_goes_back(a: App, b: App, ctrl: bool, acts: Seq<Action>)
    requires
        a.error is None,
        a.env_picker is None,
        a.screen != Screen::ServerList,
        a.screen == Screen::EndpointList ==> {
            &&& !a.endpoint_list.show_curl
            &&& !a.endpoint_list.detail_focused
            &&& !a.endpoint_list.filter_active
            &&& a.endpoint_list.filter@.len() == 0
        },
        a.screen == Screen::RequestBuilder ==> a.request_builder.focus == FocusedPane::ParamsNav,
        a.screen == Screen::ResponseViewer ==> a.response_viewer.save_dialog is None,
        key_done(a, b, Key::Esc, ctrl, acts),
    ensures
        b == (App { screen: previous_screen(a.screen), ..a }),
        acts.len() == 0,
{
}

/// The screen that Esc goes back to.
pub open spec fn previous_screen(s: Screen) -> Screen {
    match s {
        Screen::ServerList => Screen::ServerList,
        Screen::AddServer => Screen::ServerList,
        Screen::EndpointList => Screen::ServerList,
        Screen::RequestBuilder => Screen::EndpointList,
        Screen::ResponseViewer => Screen::RequestBuilder,
    }
}

/// The motion keys of the server list keep the selection on a server.
pub proof fn law_server_selection_in_range(a: App, b: App, key: Key, acts: Seq<Action>)
    requires
        a.server_list.selected < a.config.servers@.len(),
        key == Key::Char('j') || key == Key::Down || key == Key::Char('k') || key == Key::Up || key == Key::Home
            || key == Key::End || key == Key::PageUp || key == Key::PageDown,
        server_list_done(a, b, key, acts),
    ensures
        b.server_list.selected < b.config.servers@.len(),
{
}

// ── Loaded documents ─────────────────────────────────────────────────────────

/// The document stored under key `k`, if any.
pub open spec fn spec_under(v: Seq<(String, ApiSpec)>, k: Seq<char>) -> Option<ApiSpec> {
    match key_index(v, k) {
        Some(i) => Some(v[i].1),
        None => None,
    }
}

proof fn lemma_key_index_first<T>(v: Seq<(String, T)>, k: Seq<char>)
    ensures
        match key_index(v, k) {
            Some(i) => 0 <= i < v.len() && v[i].0@ == k && forall|j: int| 0 <= j < i ==> #[trigger] v[j].0@ != k,
            None => forall|j: int| 0 <= j < v.len() ==> #[trigger] v[j].0@ != k,
        },
    decreases v.len(),
{
    if v.len() > 0 && v[0].0@ != k {
        let t = v.drop_first();
        lemma_key_index_first(t, k);
        match key_index(t, k) {
            Some(i) => {
                assert forall|j: int| 0 <= j < i + 1 implies #[trigger] v[j].0@ != k by {
                    if j > 0 {
                        assert(v[j] == t[j - 1]);
                    }
                }
            },
            None => {
                assert forall|j: int| 0 <= j < v.len() implies #[trigger] v[j].0@ != k by {
                    if j > 0 {
                        assert(v[j] == t[j - 1]);
                    }
                }
            },
        }
    }
}

proof fn lemma_key_index_unique<T>(v: Seq<(String, T)>, k: Seq<char>, r: Option<int>)
    requires
        match r {
            Some(i) => 0 <= i < v.len() && v[i].0@ == k && forall|j: int| 0 <= j < i ==> #[trigger] v[j].0@ != k,
            None => forall|j: int| 0 <= j < v.len() ==> #[trigger] v[j].0@ != k,
        },
    ensures
        key_index(v, k) == r,
{
    lemma_key_index_first(v, k);
    match key_index(v, k) {
        Some(i) => match r {
            Some(i2) => {
                if i < i2 {
                    assert(v[i].0@ != k);
                } else if i2 < i {
                    assert(v[i2].0@ != k);
                }
            },
            None => {
                assert(v[i].0@ != k);
            },
        },
        None => match r {
            Some(i2) => {
                assert(v[i2].0@ != k);
            },
            None => {},
        },
    }
}

proof fn lemma_without_text_drops(v: Seq<Seq<char>>, k: Seq<char>)
    ensures
        !without_text(v, k).contains(k),
    decreases v.len(),
{
    if v.len() > 0 {
        lemma_without_text_drops(v.drop_last(), k);
        let w = without_text(v.drop_last(), k);
        if v.last() != k {
            assert forall|j: int| 0 <= j < w.push(v.last()).len() implies w.push(v.last())[j] != k by {
                if j < w.len() {
                    assert(w.push(v.last())[j] == w[j]);
                }
            }
            assert(w + seq![v.last()] == w.push(v.last()));
        } else {
            assert(w + Seq::<Seq<char>>::empty() == w);
        }
    }
}

/// The time recorded under key `k`, if any.
pub open spec fn time_under(v: Seq<(String, u64)>, k: Seq<char>) -> Option<u64> {
    match key_index(v, k) {
        Some(i) => Some(v[i].1),
        None => None,
    }
}

proof fn lemma_refreshed_at(a: App, b: App, name: String, spec: ApiSpec, now: u64)
    requires
        bg_done(a, b, BgMsg::SpecLoaded { server_name: name, spec }, now),
    ensures
        time_under(b.last_refreshed@, name@) == Some(now),
{
    let va = a.last_refreshed@;
    let vb = b.last_refreshed@;
    lemma_key_index_first(va, name@);
    assert(key_names(vb).len() == vb.len());
    assert(key_names(va).len() == va.len());
    match key_index(va, name@) {
        Some(i) => {
            assert forall|j: int| 0 <= j < vb.len() implies #[trigger] vb[j].0@ == va[j].0@ by {
                assert(key_names(vb)[j] == key_names(va)[j]);
            }
            lemma_key_index_unique(vb, name@, Some(i));
            assert(vb.map_values(|e: (String, u64)| e.1)[i] == now);
        },
        None => {
            let n = va.len() as int;
            assert(key_names(vb)[n] == name@);
            assert forall|j: int| 0 <= j < n implies #[trigger] vb[j].0@ != name@ by {
                assert(key_names(vb)[j] == key_names(va)[j]);
            }
            lemma_key_index_unique(vb, name@, Some(n));
            assert(vb.map_values(|e: (String, u64)| e.1)[n] == now);
        },
    }
}

/// A loaded document is what is found afterwards under its server's name, and the
/// server is recorded as refreshed at the time given; the documents of the other
/// servers are unchanged, and the server is no longer loading.
pub proof fn law_loaded_spec_is_found(a: App, b: App, name: String, spec: ApiSpec, now: u64)
    requires
        bg_done(a, b, BgMsg::SpecLoaded { server_name: name, spec }, now),
    ensures
        spec_under(b.specs@, name@) == Some(spec),
        forall|k: Seq<char>| k != name@ ==> #[trigger] spec_under(b.specs@, k) == spec_under(a.specs@, k),
        !texts(b.spec_loading@).contains(name@),
        time_under(b.last_refreshed@, name@) == Some(now),
{
    lemma_refreshed_at(a, b, name, spec, now);
    lemma_without_text_drops(texts(a.spec_loading@), name@);
    let va = a.specs@;
    let vb = b.specs@;
    lemma_key_index_first(va, name@);
    match key_index(va, name@) {
        Some(i) => {
            assert forall|j: int| 0 <= j < vb.len() implies #[trigger] vb[j].0 == va[j].0 by {}
            assert forall|k: Seq<char>| true implies #[trigger] key_index(vb, k) == key_index(va, k) by {
                lemma_key_index_first(va, k);
                lemma_key_index_unique(vb, k, key_index(va, k));
            }
            assert(key_index(vb, name@) == Some(i));
            assert forall|k: Seq<char>| k != name@ implies #[trigger] spec_under(vb, k) == spec_under(va, k) by {
                assert(key_index(vb, k) == key_index(va, k));
                lemma_key_index_first(va, k);
            }
        },
        None => {
            let n = va.len() as int;
            assert(vb[n].0 == name);
            lemma_key_index_unique(vb, name@, Some(n));
            assert forall|k: Seq<char>| k != name@ implies #[trigger] spec_under(vb, k) == spec_under(va, k) by {
                lemma_key_index_first(va, k);
                lemma_key_index_unique(vb, k, key_index(va, k));
            }
        },
    }
}

/// The motion keys (and re-sorting) of the endpoint list keep the selection on an
/// endpoint shown.
pub proof fn law_endpoint_selection_in_range(a: App, b: App, key: Key)
    requires
        !a.endpoint_list.show_curl,
        !a.endpoint_list.detail_focused,
        !a.endpoint_list.filter_active,
        a.endpoint_list.selected < a.endpoint_list.shown().len(),
        key == Key::Char('j') || key == Key::Down || key == Key::Char('k') || key == Key::Up || key == Key::Home
            || key == Key::End || key == Key::PageUp || key == Key::PageDown || key == Key::Char('s'),
        endpoint_list_done(a, b, key),
    ensures
        b.endpoint_list.selected < b.endpoint_list.shown().len(),
{
}

// ── History ──────────────────────────────────────────────────────────────────

proof fn lemma_recent_bounds(es: Seq<HistoryEntry>, q: Seq<char>)
    ensures
        forall|k: int| 0 <= k < recent_matching(es, q).len() ==> 0 <= #[trigger] recent_matching(es, q)[k] < es.len(),
        forall|i: int, j: int| 0 <= i < j < recent_matching(es, q).len() ==> recent_matching(es, q)[j] < recent_matching(es, q)[i],
    decreases es.len(),
{
    if es.len() > 0 {
        lemma_recent_bounds(es.drop_last(), q);
        let rest = recent_matching(es.drop_last(), q);
        let r = recent_matching(es, q);
        let h: Seq<int> = if crate::views::history::entry_matches(es.last(), q) { seq![es.len() - 1] } else { Seq::empty() };
        assert(r == h + rest);
        assert forall|k: int| 0 <= k < r.len() implies 0 <= #[trigger] r[k] < es.len() by {
            if k >= h.len() {
                assert(r[k] == rest[k - h.len()]);
            }
        }
        assert forall|i: int, j: int| 0 <= i < j < r.len() implies r[j] < r[i] by {
            if i >= h.len() {
                assert(r[i] == rest[i - h.len()]);
                assert(r[j] == rest[j - h.len()]);
            } else {
                assert(r[j] == rest[j - h.len()]);
                assert(0 <= rest[j - h.len()] < es.len() - 1);
            }
        }
    }
}

/// The history lists the most recent request first: the entries shown come in
/// strictly decreasing order of recording.
pub proof fn law_history_most_recent_first(es: Seq<HistoryEntry>, q: Seq<char>)
    ensures
        forall|i: int, j: int| 0 <= i < j < recent_matching(es, q).len() ==> recent_matching(es, q)[j] < recent_matching(es, q)[i],
{
    lemma_recent_bounds(es, q);
}

// ── curl command ─────────────────────────────────────────────────────────────

proof fn lemma_strip_suffixes_clean(s: Seq<char>, p: Seq<char>)
    requires
        p.len() > 0,
    ensures
        !(p.len() <= strip_suffixes(s, p).len() && strip_suffixes(s, p).skip(strip_suffixes(s, p).len() - p.len()) == p),
    decreases s.len(),
{
    if p.len() <= s.len() && s.skip(s.len() - p.len()) == p {
        lemma_strip_suffixes_clean(s.take(s.len() - p.len()), p);
    }
}

/// Without a body, the last line of the curl command does not end in a line
/// continuation (` \`).
pub proof fn law_curl_ends_cleanly(base: Seq<char>, ep: Endpoint)
    requires
        ep.request_body is None,
    ensures
        ({
            let last = curl_lines(base, ep).last();
            !(2 <= last.len() && last.skip(last.len() - 2) == " \\"@)
        }),
{
    reveal_strlit(" \\");
    let head = seq![
        "curl -X "@ + ep.method@ + " \\"@,
        "  '"@ + crate::text::trim_end_char(base, '/') + ep.path@ + "' \\"@,
    ] + crate::app::curl_header_lines(ep.parameters@);
    assert(curl_lines(base, ep) == head.update(head.len() - 1, strip_suffixes(head.last(), " \\"@)));
    lemma_strip_suffixes_clean(head.last(), " \\"@);
}

// ── Endpoint order ───────────────────────────────────────────────────────────

proof fn lemma_lt_irreflexive(a: Seq<char>)
    ensures
        !seq_lt(a, a),
    decreases a.len(),
{
    if a.len() > 0 {
        lemma_lt_irreflexive(a.drop_first());
    }
}

proof fn lemma_lt_transitive(a: Seq<char>, b: Seq<char>, c: Seq<char>)
    requires
        seq_lt(a, b),
        seq_lt(b, c),
    ensures
        seq_lt(a, c),
    decreases a.len(),
{
    if a.len() > 0 && b.len() > 0 && c.len() > 0 && a[0] == b[0] && b[0] == c[0] {
        lemma_lt_transitive(a.drop_first(), b.drop_first(), c.drop_first());
    }
}

proof fn lemma_lt_total(a: Seq<char>, b: Seq<char>)
    ensures
        a == b || seq_lt(a, b) || seq_lt(b, a),
    decreases a.len(),
{
    if a.len() > 0 && b.len() > 0 {
        if a[0] == b[0] {
            lemma_lt_total(a.drop_first(), b.drop_first());
            if a.drop_first() == b.drop_first() {
                assert(a =~= seq![a[0]] + a.drop_first());
                assert(b =~= seq![b[0]] + b.drop_first());
            }
        } else {
            vstd::utf8::char_u32_cast(a[0], a[0] as u32);
            vstd::utf8::char_u32_cast(b[0], b[0] as u32);
        }
    } else if a.len() == 0 && b.len() == 0 {
        assert(a =~= b);
    }
}

/// `a` does not order after `b`.
pub open spec fn seq_le(a: Seq<char>, b: Seq<char>) -> bool {
    !seq_lt(b, a)
}

proof fn lemma_lt_le_lt(a: Seq<char>, b: Seq<char>, c: Seq<char>)
    requires
        seq_lt(a, b),
        seq_le(b, c),
    ensures
        seq_lt(a, c),
{
    lemma_lt_total(b, c);
    if seq_lt(b, c) {
        lemma_lt_transitive(a, b, c);
    }
}

proof fn lemma_lt_asymmetric(a: Seq<char>, b: Seq<char>)
    requires
        seq_lt(a, b),
    ensures
        !seq_lt(b, a),
{
    if seq_lt(b, a) {
        lemma_lt_transitive(a, b, a);
        lemma_lt_irreflexive(a);
    }
}

/// Whether the indices are ordered by the keys of the endpoints they name.
pub open spec fn ordered_by_key(s: Seq<int>, eps: Seq<Endpoint>, mode: SortMode) -> bool {
    forall|i: int, j: int| 0 <= i < j < s.len() ==> seq_le(sort_key(eps[s[i]], mode), sort_key(eps[s[j]], mode))
}

proof fn lemma_place(r: Seq<int>, k: Seq<char>, eps: Seq<Endpoint>, mode: SortMode)
    ensures
        place(r, k, eps, mode) <= r.len(),
        forall|i: int| 0 <= i < place(r, k, eps, mode) ==> !seq_lt(k, sort_key(eps[#[trigger] r[i]], mode)),
        place(r, k, eps, mode) < r.len() ==> seq_lt(k, sort_key(eps[r[place(r, k, eps, mode) as int]], mode)),
    decreases r.len(),
{
    if r.len() > 0 && !seq_lt(k, sort_key(eps[r[0]], mode)) {
        lemma_place(r.drop_first(), k, eps, mode);
        assert forall|i: int| 0 <= i < place(r, k, eps, mode) implies !seq_lt(k, sort_key(eps[#[trigger] r[i]], mode)) by {
            if i > 0 {
                assert(r[i] == r.drop_first()[i - 1]);
            }
        }
        if place(r, k, eps, mode) < r.len() {
            assert(r[place(r, k, eps, mode) as int] == r.drop_first()[place(r.drop_first(), k, eps, mode) as int]);
        }
    }
}

proof fn lemma_sorted_ordered(s: Seq<int>, eps: Seq<Endpoint>, mode: SortMode)
    ensures
        ordered_by_key(sorted(s, eps, mode), eps, mode),
    decreases s.len(),
{
    if s.len() > 0 {
        let r = sorted(s.drop_last(), eps, mode);
        lemma_sorted_ordered(s.drop_last(), eps, mode);
        let x = s.last();
        let k = sort_key(eps[x], mode);
        let p = place(r, k, eps, mode) as int;
        lemma_place(r, k, eps, mode);
        let t = r.insert(p, x);
        assert(sorted(s, eps, mode) == t);
        assert forall|i: int| p <= i < r.len() implies seq_lt(k, sort_key(eps[#[trigger] r[i]], mode)) by {
            if i > p {
                lemma_lt_le_lt(k, sort_key(eps[r[p]], mode), sort_key(eps[r[i]], mode));
            }
        }
        assert forall|i: int, j: int| 0 <= i < j < t.len() implies seq_le(sort_key(eps[t[i]], mode), sort_key(eps[t[j]], mode)) by {
            if j < p {
                assert(t[i] == r[i] && t[j] == r[j]);
            } else if j == p {
                assert(t[i] == r[i]);
            } else if i < p {
                assert(t[i] == r[i] && t[j] == r[j - 1]);
                if seq_lt(sort_key(eps[r[j - 1]], mode), sort_key(eps[r[i]], mode)) {
                    lemma_lt_transitive(k, sort_key(eps[r[j - 1]], mode), sort_key(eps[r[i]], mode));
                }
            } else if i == p {
                assert(t[j] == r[j - 1]);
                lemma_lt_asymmetric(k, sort_key(eps[r[j - 1]], mode));
            } else {
                assert(t[i] == r[i - 1] && t[j] == r[j - 1]);
            }
        }
    }
}

/// Sorted by method or by path, the endpoint list shows its endpoints in order of
/// that key (stably: see [`sorted`]).
pub proof fn law_endpoints_in_key_order(eps: Seq<Endpoint>, filter: Seq<char>, mode: SortMode)
    requires
        mode != SortMode::Unsorted,
    ensures
        ordered_by_key(shown(eps, filter, mode), eps, mode),
{
    lemma_sorted_ordered(crate::views::endpoint_list::matching(eps, crate::text::lowercase(filter)), eps, mode);
}

} // verus!
