//! How each screen reacts to a key.

use vstd::prelude::*;
use crate::app::{
    App, Action, Key, Screen, key_index, key_index_exec, without_key, texts, with_text, with_picker,
    picker_can_open, env_vars,
    clone_tls, concat3, remove_key, add_text, server_base, resolve_server_base,
};
use crate::config::without_name;
use crate::client::pairs_view;
use crate::openapi::{endpoints_of, extract_endpoints};
use crate::views::add_server::{AddServerState, AddServerField};
use crate::views::request_builder::{
    opt_text, built_from, request_of, env_request_of, RequestBuilderState, FocusedPane, rows_view, body_index, body_text,
    param_count_of, next_row_done, prev_row_done, toggle_enabled_done, edit_char_done, edit_backspace_done,
    edit_body_char_done, edit_body_backspace_done, cursor_left_done, cursor_right_done, cursor_up_done,
    cursor_down_done, cursor_line_start_done, cursor_line_end_done, body_goto_top_done, body_goto_bottom_done,
    body_delete_line_done, body_delete_word_done, min,
};
use crate::views::endpoint_list::SortMode;
use crate::config::Config;
use crate::config::{ServerEntry, TlsConfig};
use crate::app::{non_empty, non_empty_text};
use crate::schema::str_is;
use crate::text::{trim, trim_chars, chars_of, string_of, push_char, pop_char};
use crate::views::endpoint_list::{EndpointListState, page_of, step_down, step_up};
use crate::views::server_list::ServerListState;
use crate::views::response_viewer::ResponseViewerState;

verus! {

// ── Server list ──────────────────────────────────────────────────────────────

/// Whether a key on the server list runs without overflow or a bad index: moving
/// down stays below the largest index, and deleting, refreshing or opening needs the
/// selection to name a server.
pub open spec fn server_list_key_ok(a: App, key: Key) -> bool {
    let n = a.config.servers@.len();
    let sel = a.server_list.selected;
    &&& key == Key::Char('E') ==> picker_can_open(a)
    &&& n > 0 ==> match key {
        Key::Char('j') | Key::Down => sel < usize::MAX,
        Key::PageDown => sel + page_of(a.server_list.page_size) <= usize::MAX,
        Key::Char('d') | Key::Char('r') | Key::Enter => sel < n,
        _ => true,
    }
}

/// The error shown when a server's document has not been loaded.
pub open spec fn not_loaded_message(name: Seq<char>) -> Seq<char> {
    "Spec for '"@ + name + "' not loaded yet — press 'r' to retry"@
}

/// What a key does on the server list: `q` quits; `j`/`k`, the arrows, Home, End and
/// the page keys move the selection within the servers; `a` opens an empty form;
/// `d` removes the selected server and its document, saves, and keeps the selection
/// on a server; `r` starts fetching its document; Enter opens its endpoints when its
/// document is loaded and otherwise says so. Anything else does nothing.
pub open spec fn server_list_done(a: App, b: App, key: Key, acts: Seq<Action>) -> bool {
    let n = a.config.servers@.len();
    let sel = a.server_list.selected;
    let sl = a.server_list;
    let moved = |s: int| App { server_list: ServerListState { selected: s as usize, ..sl }, ..a };
    match key {
        Key::Char('q') => b == App { should_quit: true, ..a } && acts.len() == 0,
        Key::Char('E') => b == with_picker(a) && acts.len() == 0,
        Key::Char('j') | Key::Down => b == (if n > 0 { moved(step_down(sel as int, 1, n as int)) } else { a })
            && acts.len() == 0,
        Key::Char('k') | Key::Up => b == moved(step_up(sel as int, 1)) && acts.len() == 0,
        Key::Home => b == moved(0) && acts.len() == 0,
        Key::End => b == (if n > 0 { moved(n - 1) } else { a }) && acts.len() == 0,
        Key::PageUp => b == moved(step_up(sel as int, page_of(sl.page_size))) && acts.len() == 0,
        Key::PageDown => b == (if n > 0 {
            moved(step_down(sel as int, page_of(sl.page_size), n as int))
        } else {
            a
        }) && acts.len() == 0,
        Key::Char('a') => {
            &&& b == App { add_server: b.add_server, screen: Screen::AddServer, ..a }
            &&& b.add_server.blank()
            &&& acts.len() == 0
        },
        Key::Char('d') => if n > 0 {
            let name = a.config.servers@[sel as int].name@;
            let left = without_name(a.config.servers@, name);
            &&& b.config.servers@ == left
            &&& b.config.theme == a.config.theme
            &&& b.specs@ == without_key(a.specs@, name)
            &&& b == App {
                config: b.config,
                specs: b.specs,
                server_list: ServerListState {
                    selected: if sel >= left.len() && sel > 0 { (sel - 1) as usize } else { sel },
                    ..sl
                },
                ..a
            }
            &&& acts == seq![Action::SaveConfig]
        } else {
            b == a && acts.len() == 0
        },
        Key::Char('r') => if n > 0 {
            let s = a.config.servers@[sel as int];
            &&& texts(b.spec_loading@) == with_text(texts(a.spec_loading@), s.name@)
            &&& b == App { spec_loading: b.spec_loading, ..a }
            &&& acts == seq![Action::Fetch { name: s.name, url: s.url, tls: s.tls }]
        } else {
            b == a && acts.len() == 0
        },
        Key::Enter => acts.len() == 0 && if n > 0 {
            let s = a.config.servers@[sel as int];
            match key_index(a.specs@, s.name@) {
                Some(i) => {
                    let spec = a.specs@[i].1;
                    &&& b == App { endpoint_list: b.endpoint_list, screen: Screen::EndpointList, ..a }
                    &&& b.endpoint_list.endpoints@.map_values(|e: crate::openapi::Endpoint| e@) == endpoints_of(spec.paths@, spec)
                    &&& b.endpoint_list.server_name == s.name
                    &&& b.endpoint_list.server_base@ == if spec.server_urls@.len() > 0 {
                        server_base(s.url@, spec.server_urls@[0]@)
                    } else {
                        Seq::<char>::empty()
                    }
                    &&& b.endpoint_list.fresh()
                },
                None => {
                    &&& b == App { error: b.error, ..a }
                    &&& b.error matches Some(e) && e@ == not_loaded_message(s.name@)
                },
            }
        } else {
            b == a
        },
        _ => b == a && acts.len() == 0,
    }
}

impl App {
    /// Reacts to a key on the server list (see [`server_list_done`]).
    pub fn handle_server_list(&mut self, key: Key) -> (acts: Vec<Action>)
        requires
            server_list_key_ok(*old(self), key),
        ensures
            server_list_done(*old(self), *final(self), key, acts@),
    {
        let n = self.config.servers.len();
        let mut acts: Vec<Action> = Vec::new();
        let sel = self.server_list.selected;
        let page: usize = if self.server_list.page_size > 1 { self.server_list.page_size as usize } else { 1 };
        match key {
            Key::Char('q') => {
                self.should_quit = true;
            },
            Key::Char('E') => {
                self.open_env_picker();
            },
            Key::Char('j') | Key::Down => {
                if n > 0 {
                    let s = sel + 1;
                    self.server_list.selected = if s < n - 1 { s } else { n - 1 };
                }
            },
            Key::Char('k') | Key::Up => {
                if sel > 0 {
                    self.server_list.selected = sel - 1;
                }
            },
            Key::Home => {
                self.server_list.selected = 0;
            },
            Key::End => {
                if n > 0 {
                    self.server_list.selected = n - 1;
                }
            },
            Key::PageUp => {
                self.server_list.selected = if sel > page { sel - page } else { 0 };
            },
            Key::PageDown => {
                if n > 0 {
                    let s = sel + page;
                    self.server_list.selected = if s < n - 1 { s } else { n - 1 };
                }
            },
            Key::Char('a') => {
                self.add_server = AddServerState::default();
                self.screen = Screen::AddServer;
            },
            Key::Char('d') => {
                if n > 0 {
                    let name = self.config.servers[sel].name.clone();
                    self.config.remove_server(name.as_str());
                    remove_key(&mut self.specs, name.as_str());
                    acts.push(Action::SaveConfig);
                    if sel >= self.config.servers.len() && sel > 0 {
                        self.server_list.selected = sel - 1;
                    }
                }
            },
            Key::Char('r') => {
                if n > 0 {
                    let name = self.config.servers[sel].name.clone();
                    let url = self.config.servers[sel].url.clone();
                    let tls = clone_tls(&self.config.servers[sel].tls);
                    add_text(&mut self.spec_loading, name.clone());
                    acts.push(Action::Fetch { name, url, tls });
                }
            },
            Key::Enter => {
                if n > 0 {
                    let name = self.config.servers[sel].name.clone();
                    match key_index_exec(&self.specs, name.as_str()) {
                        Some(i) => {
                            let endpoints = extract_endpoints(&self.specs[i].1);
                            let base = if self.specs[i].1.server_urls.len() > 0 {
                                resolve_server_base(
                                    self.config.servers[sel].url.as_str(),
                                    self.specs[i].1.server_urls[0].as_str(),
                                )
                            } else {
                                String::new()
                            };
                            self.endpoint_list = EndpointListState::new(endpoints, name, base);
                            self.screen = Screen::EndpointList;
                        },
                        None => {
                            self.error = Some(
                                concat3("Spec for '", name.as_str(), "' not loaded yet — press 'r' to retry"),
                            );
                        },
                    }
                }
            },
            _ => {},
        }
        acts
    }
}

// ── Add-server form ──────────────────────────────────────────────────────────

/// Whether `b` is the form `a` with the active field's text changed by `t`.
pub open spec fn field_edited(a: AddServerState, b: AddServerState, t: spec_fn(Seq<char>) -> Seq<char>) -> bool {
    &&& b.field == a.field
    &&& if a.field == AddServerField::Name { b.name@ == t(a.name@) } else { b.name == a.name }
    &&& if a.field == AddServerField::Url { b.url@ == t(a.url@) } else { b.url == a.url }
    &&& if a.field == AddServerField::ClientCert {
        b.client_cert@ == t(a.client_cert@)
    } else {
        b.client_cert == a.client_cert
    }
    &&& if a.field == AddServerField::ClientKey {
        b.client_key@ == t(a.client_key@)
    } else {
        b.client_key == a.client_key
    }
    &&& if a.field == AddServerField::CaCert { b.ca_cert@ == t(a.ca_cert@) } else { b.ca_cert == a.ca_cert }
}

/// Whether `e` is the server the form describes: trimmed name and URL, no
/// description or default headers, each certificate path trimmed and left out when
/// blank.
pub open spec fn entry_of_form(e: ServerEntry, f: AddServerState) -> bool {
    &&& e.name@ == trim(f.name@)
    &&& e.url@ == trim(f.url@)
    &&& e.description@.len() == 0
    &&& e.default_headers@.len() == 0
    &&& opt_text(e.tls.client_cert) == non_empty_text(f.client_cert@)
    &&& opt_text(e.tls.client_key) == non_empty_text(f.client_key@)
    &&& opt_text(e.tls.ca_cert) == non_empty_text(f.ca_cert@)
}

/// What a key does on the add-server form: Esc goes back; Tab moves to the next
/// field; Enter, when the trimmed name and URL are both non-empty, adds the server
/// (replacing one of the same name), saves, starts fetching its document and goes
/// back; Backspace and characters edit the active field.
pub open spec fn add_server_done(a: App, b: App, key: Key, acts: Seq<Action>) -> bool {
    let f = a.add_server;
    match key {
        Key::Esc => b == App { screen: Screen::ServerList, ..a } && acts.len() == 0,
        Key::Tab => b == App { add_server: AddServerState { field: f.field.next_spec(), ..f }, ..a } && acts.len() == 0,
        Key::Enter => if trim(f.name@).len() > 0 && trim(f.url@).len() > 0 {
            let left = without_name(a.config.servers@, trim(f.name@));
            let e = b.config.servers@.last();
            &&& b.config.servers@.len() == left.len() + 1
            &&& b.config.servers@.drop_last() == left
            &&& entry_of_form(e, f)
            &&& b.config.theme == a.config.theme
            &&& texts(b.spec_loading@) == with_text(texts(a.spec_loading@), e.name@)
            &&& b == App { config: b.config, spec_loading: b.spec_loading, screen: Screen::ServerList, ..a }
            &&& acts == seq![Action::SaveConfig, Action::Fetch { name: e.name, url: e.url, tls: e.tls }]
        } else {
            b == a && acts.len() == 0
        },
        Key::Backspace => {
            &&& field_edited(f, b.add_server, |s: Seq<char>| if s.len() > 0 { s.drop_last() } else { s })
            &&& b == App { add_server: b.add_server, ..a }
            &&& acts.len() == 0
        },
        Key::Char(c) => {
            &&& field_edited(f, b.add_server, |s: Seq<char>| s.push(c))
            &&& b == App { add_server: b.add_server, ..a }
            &&& acts.len() == 0
        },
        _ => b == a && acts.len() == 0,
    }
}

impl App {
    /// Reacts to a key on the add-server form (see [`add_server_done`]).
    pub fn handle_add_server(&mut self, key: Key) -> (acts: Vec<Action>)
        ensures
            add_server_done(*old(self), *final(self), key, acts@),
    {
        let mut acts: Vec<Action> = Vec::new();
        match key {
            Key::Esc => {
                self.screen = Screen::ServerList;
            },
            Key::Tab => {
                self.add_server.field = self.add_server.field.next();
            },
            Key::Enter => {
                let nc = trim_chars(&chars_of(self.add_server.name.as_str()));
                let uc = trim_chars(&chars_of(self.add_server.url.as_str()));
                if nc.len() > 0 && uc.len() > 0 {
                    let name = string_of(nc.as_slice());
                    let url = string_of(uc.as_slice());
                    let tls = TlsConfig {
                        client_cert: non_empty(self.add_server.client_cert.as_str()),
                        client_key: non_empty(self.add_server.client_key.as_str()),
                        ca_cert: non_empty(self.add_server.ca_cert.as_str()),
                    };
                    let entry = ServerEntry {
                        name: name.clone(),
                        url: url.clone(),
                        description: String::new(),
                        default_headers: Vec::new(),
                        tls: clone_tls(&tls),
                    };
                    let ghost e = entry;
                    self.config.add_server(entry);
                    assert(self.config.servers@.drop_last() =~= without_name(old(self).config.servers@, e.name@));
                    acts.push(Action::SaveConfig);
                    add_text(&mut self.spec_loading, name.clone());
                    acts.push(Action::Fetch { name, url, tls });
                    assert(acts@ =~= seq![Action::SaveConfig, Action::Fetch { name: e.name, url: e.url, tls: e.tls }]);
                    self.screen = Screen::ServerList;
                }
            },
            Key::Backspace => {
                match self.add_server.field {
                    AddServerField::Name => pop_char(&mut self.add_server.name),
                    AddServerField::Url => pop_char(&mut self.add_server.url),
                    AddServerField::ClientCert => pop_char(&mut self.add_server.client_cert),
                    AddServerField::ClientKey => pop_char(&mut self.add_server.client_key),
                    AddServerField::CaCert => pop_char(&mut self.add_server.ca_cert),
                }
            },
            Key::Char(c) => {
                match self.add_server.field {
                    AddServerField::Name => push_char(&mut self.add_server.name, c),
                    AddServerField::Url => push_char(&mut self.add_server.url, c),
                    AddServerField::ClientCert => push_char(&mut self.add_server.client_cert, c),
                    AddServerField::ClientKey => push_char(&mut self.add_server.client_key, c),
                    AddServerField::CaCert => push_char(&mut self.add_server.ca_cert, c),
                }
            },
            _ => {},
        }
        acts
    }
}

// ── Response viewer ──────────────────────────────────────────────────────────

/// Number of line feeds in `s`.
pub open spec fn newline_count(s: Seq<char>) -> nat
    decreases s.len(),
{
    if s.len() == 0 {
        0
    } else {
        newline_count(s.drop_last()) + if s.last() == '\n' { 1nat } else { 0nat }
    }
}

proof fn lemma_newline_count_bound(s: Seq<char>)
    ensures
        newline_count(s) <= s.len(),
    decreases s.len(),
{
    if s.len() > 0 {
        lemma_newline_count_bound(s.drop_last());
    }
}

/// Number of lines of `s` as `str::lines` counts them: a final line feed ends the last
/// line rather than starting an empty one.
pub open spec fn line_count(s: Seq<char>) -> nat {
    newline_count(s) + if s.len() > 0 && s.last() != '\n' { 1nat } else { 0nat }
}

/// `x + d`, at most `u16::MAX`.
pub open spec fn sat_add(x: u16, d: int) -> u16 {
    if x + d > u16::MAX { u16::MAX } else { (x + d) as u16 }
}

/// `x - d`, at least 0.
pub open spec fn sat_sub(x: u16, d: int) -> u16 {
    if x >= d { (x - d) as u16 } else { 0 }
}

/// What a key does on the response viewer. With the save dialog open: Esc closes it,
/// Backspace and characters edit the file name, Enter closes it and, when the trimmed
/// name is not empty, asks for the body to be written there. Otherwise: Esc goes back
/// to the request builder, `q` quits, `j`/`k`, the arrows and the page keys scroll
/// (without wrapping), Home and End go to the top and to the last page, `h` shows or
/// hides the headers and `s` opens the save dialog.
pub open spec fn response_viewer_done(a: App, b: App, key: Key, acts: Seq<Action>) -> bool {
    let rv = a.response_viewer;
    let set = |v: ResponseViewerState| App { response_viewer: v, ..a };
    let page = page_of(rv.page_size);
    match rv.save_dialog {
        Some(name) => match key {
            Key::Esc => b == set(ResponseViewerState { save_dialog: None, ..rv }) && acts.len() == 0,
            Key::Backspace => {
                &&& b == set(ResponseViewerState { save_dialog: b.response_viewer.save_dialog, ..rv })
                &&& b.response_viewer.save_dialog matches Some(t) && t@ == if name@.len() > 0 {
                    name@.drop_last()
                } else {
                    name@
                }
                &&& acts.len() == 0
            },
            Key::Char(c) => {
                &&& b == set(ResponseViewerState { save_dialog: b.response_viewer.save_dialog, ..rv })
                &&& b.response_viewer.save_dialog matches Some(t) && t@ == name@.push(c)
                &&& acts.len() == 0
            },
            Key::Enter => {
                &&& b == set(ResponseViewerState { save_dialog: None, ..rv })
                &&& if trim(name@).len() > 0 {
                    &&& acts.len() == 1
                    &&& acts[0] matches Action::WriteFile { path, body } && path@ == trim(name@) && body == rv.body
                } else {
                    acts.len() == 0
                }
            },
            _ => b == a && acts.len() == 0,
        },
        None => acts.len() == 0 && match key {
            Key::Esc => b == App { screen: Screen::RequestBuilder, ..a },
            Key::Char('q') => b == App { should_quit: true, ..a },
            Key::Char('j') | Key::Down => b == set(ResponseViewerState { scroll: sat_add(rv.scroll, 1), ..rv }),
            Key::Char('k') | Key::Up => b == set(ResponseViewerState { scroll: sat_sub(rv.scroll, 1), ..rv }),
            Key::PageDown => b == set(ResponseViewerState { scroll: sat_add(rv.scroll, page), ..rv }),
            Key::PageUp => b == set(ResponseViewerState { scroll: sat_sub(rv.scroll, page), ..rv }),
            Key::Home => b == set(ResponseViewerState { scroll: 0, ..rv }),
            Key::End => b == set(ResponseViewerState {
                scroll: sat_sub((line_count(rv.body@) % 65536) as u16, rv.page_size as int),
                ..rv
            }),
            Key::Char('h') => b == set(ResponseViewerState { show_headers: !rv.show_headers, ..rv }),
            Key::Char('s') => {
                &&& b == set(ResponseViewerState { save_dialog: b.response_viewer.save_dialog, ..rv })
                &&& b.response_viewer.save_dialog matches Some(t) && t@.len() == 0
            },
            _ => b == a,
        },
    }
}

fn sat_add_exec(x: u16, d: u16) -> (r: u16)
    ensures
        r == sat_add(x, d as int),
{
    if x > u16::MAX - d { u16::MAX } else { x + d }
}

fn sat_sub_exec(x: u16, d: u16) -> (r: u16)
    ensures
        r == sat_sub(x, d as int),
{
    if x >= d { x - d } else { 0 }
}

/// Number of lines of `s` (see [`line_count`]).
fn count_lines(s: &String) -> (n: usize)
    ensures
        n == line_count(s@),
{
    let cs = chars_of(s.as_str());
    let mut n: usize = 0;
    let mut i: usize = 0;
    while i < cs.len()
        invariant
            i <= cs@.len(),
            n == newline_count(cs@.take(i as int)),
            n <= i,
        decreases cs@.len() - i,
    {
        assert(cs@.take(i + 1).drop_last() =~= cs@.take(i as int));
        if cs[i] == '\n' {
            n = n + 1;
        }
        i = i + 1;
    }
    assert(cs@.take(cs@.len() as int) =~= cs@);
    if cs.len() > 0 && cs[cs.len() - 1] != '\n' {
        proof {
            lemma_newline_count_bound(cs@.drop_last());
        }
        n + 1
    } else {
        n
    }
}

impl App {
    /// Reacts to a key on the response viewer (see [`response_viewer_done`]).
    pub fn handle_response_viewer(&mut self, key: Key) -> (acts: Vec<Action>)
        ensures
            response_viewer_done(*old(self), *final(self), key, acts@),
    {
        let mut acts: Vec<Action> = Vec::new();
        let page: u16 = if self.response_viewer.page_size > 1 { self.response_viewer.page_size } else { 1 };
        if self.response_viewer.save_dialog.is_some() {
            let name = match &self.response_viewer.save_dialog {
                Some(n) => n.clone(),
                None => String::new(),
            };
            match key {
                Key::Esc => {
                    self.response_viewer.save_dialog = None;
                },
                Key::Backspace => {
                    let mut t = name;
                    pop_char(&mut t);
                    self.response_viewer.save_dialog = Some(t);
                },
                Key::Char(c) => {
                    let mut t = name;
                    push_char(&mut t, c);
                    self.response_viewer.save_dialog = Some(t);
                },
                Key::Enter => {
                    let p = trim_chars(&chars_of(name.as_str()));
                    if p.len() > 0 {
                        acts.push(Action::WriteFile { path: string_of(p.as_slice()), body: self.response_viewer.body.clone() });
                    }
                    self.response_viewer.save_dialog = None;
                },
                _ => {},
            }
            return acts;
        }
        match key {
            Key::Esc => {
                self.screen = Screen::RequestBuilder;
            },
            Key::Char('q') => {
                self.should_quit = true;
            },
            Key::Char('j') | Key::Down => {
                self.response_viewer.scroll = sat_add_exec(self.response_viewer.scroll, 1);
            },
            Key::Char('k') | Key::Up => {
                self.response_viewer.scroll = sat_sub_exec(self.response_viewer.scroll, 1);
            },
            Key::PageDown => {
                self.response_viewer.scroll = sat_add_exec(self.response_viewer.scroll, page);
            },
            Key::PageUp => {
                self.response_viewer.scroll = sat_sub_exec(self.response_viewer.scroll, page);
            },
            Key::Home => {
                self.response_viewer.scroll = 0;
            },
            Key::End => {
                let total = count_lines(&self.response_viewer.body);
                let t: u16 = (total % 65536) as u16;
                self.response_viewer.scroll = sat_sub_exec(t, self.response_viewer.page_size);
            },
            Key::Char('h') => {
                self.response_viewer.show_headers = !self.response_viewer.show_headers;
            },
            Key::Char('s') => {
                self.response_viewer.save_dialog = Some(String::new());
            },
            _ => {},
        }
        acts
    }
}

// ── Endpoint list ────────────────────────────────────────────────────────────

/// Position of the first server named `name`.
pub open spec fn server_named(servers: Seq<ServerEntry>, name: Seq<char>) -> Option<int>
    decreases servers.len(),
{
    if servers.len() == 0 {
        None
    } else if servers[0].name@ == name {
        Some(0)
    } else {
        match server_named(servers.drop_first(), name) {
            Some(i) => Some(i + 1),
            None => None,
        }
    }
}

fn server_named_exec(servers: &Vec<ServerEntry>, name: &str) -> (r: Option<usize>)
    ensures
        match r {
            Some(i) => i < servers@.len() && server_named(servers@, name@) == Some(i as int),
            None => server_named(servers@, name@) is None,
        },
{
    let mut i: usize = 0;
    assert(servers@.skip(0) =~= servers@);
    while i < servers.len()
        invariant
            i <= servers@.len(),
            server_named(servers@, name@) == match server_named(servers@.skip(i as int), name@) {
                Some(j) => Some(j + i),
                None => None,
            },
        decreases servers@.len() - i,
    {
        assert(servers@.skip(i as int)[0] == servers@[i as int]);
        if str_is(servers[i].name.as_str(), name) {
            return Some(i);
        }
        assert(servers@.skip(i as int).drop_first() =~= servers@.skip(i + 1));
        i = i + 1;
    }
    None
}

/// The default headers of the server named `name`, or none.
pub open spec fn headers_of(servers: Seq<ServerEntry>, name: Seq<char>) -> Seq<(String, String)> {
    match server_named(servers, name) {
        Some(i) => servers[i].default_headers@,
        None => Seq::empty(),
    }
}

/// Whether a key on the endpoint list runs without overflow.
pub open spec fn endpoint_list_key_ok(a: App, key: Key) -> bool {
    let el = a.endpoint_list;
    let n = el.shown().len();
    &&& key == Key::Char('E') ==> picker_can_open(a)
    &&& !el.show_curl && !el.detail_focused && !el.filter_active && n > 0 ==> match key {
        Key::Char('j') | Key::Down => el.selected < usize::MAX,
        Key::PageDown => el.selected + page_of(el.page_size) <= usize::MAX,
        _ => true,
    }
}

/// What a key does on the endpoint list. With the curl popup open, Esc or `c` closes
/// it. With the detail pane focused, `j`/`k` and the arrows scroll it and Tab or Esc
/// leave it. While typing a filter, characters and Backspace edit it (selection back
/// to the top), Enter keeps it and Esc drops it. Otherwise: Esc clears a filter or
/// goes back; `q` quits; the motion keys move the selection within the endpoints
/// shown; Tab focuses the detail; `s` cycles the sort order; `c` opens the curl popup
/// for a selected endpoint; `/` starts a new filter; Enter opens the request builder
/// for the selected endpoint with its server's default headers.
pub open spec fn endpoint_list_done(a: App, b: App, key: Key) -> bool {
    let el = a.endpoint_list;
    let set = |e: EndpointListState| App { endpoint_list: e, ..a };
    let n = el.shown().len();
    let page = page_of(el.page_size);
    let cleared = b == set(EndpointListState { filter: b.endpoint_list.filter, selected: 0, ..el })
        && b.endpoint_list.filter@.len() == 0;
    if el.show_curl {
        match key {
            Key::Esc | Key::Char('c') => b == set(EndpointListState { show_curl: false, ..el }),
            _ => b == a,
        }
    } else if el.detail_focused {
        match key {
            Key::Char('j') | Key::Down => b == set(EndpointListState { detail_scroll: sat_add(el.detail_scroll, 1), ..el }),
            Key::Char('k') | Key::Up => b == set(EndpointListState { detail_scroll: sat_sub(el.detail_scroll, 1), ..el }),
            Key::Tab | Key::Esc => b == set(EndpointListState { detail_focused: false, ..el }),
            _ => b == a,
        }
    } else if el.filter_active {
        match key {
            Key::Esc => {
                &&& b == set(EndpointListState { filter: b.endpoint_list.filter, selected: 0, filter_active: false, ..el })
                &&& b.endpoint_list.filter@.len() == 0
            },
            Key::Backspace => {
                &&& b == set(EndpointListState { filter: b.endpoint_list.filter, selected: 0, ..el })
                &&& b.endpoint_list.filter@ == if el.filter@.len() > 0 { el.filter@.drop_last() } else { el.filter@ }
            },
            Key::Char(c) => {
                &&& b == set(EndpointListState { filter: b.endpoint_list.filter, selected: 0, ..el })
                &&& b.endpoint_list.filter@ == el.filter@.push(c)
            },
            Key::Enter => b == set(EndpointListState { filter_active: false, ..el }),
            _ => b == a,
        }
    } else {
        match key {
            Key::Esc => if el.filter@.len() > 0 { cleared } else { b == App { screen: Screen::ServerList, ..a } },
            Key::Char('q') => b == App { should_quit: true, ..a },
            Key::Char('E') => b == with_picker(a),
            Key::Char('j') | Key::Down => b == (if n > 0 {
                set(EndpointListState { selected: step_down(el.selected as int, 1, n as int) as usize, detail_scroll: 0, ..el })
            } else {
                a
            }),
            Key::Char('k') | Key::Up => b == (if el.selected > 0 {
                set(EndpointListState { selected: (el.selected - 1) as usize, detail_scroll: 0, ..el })
            } else {
                a
            }),
            Key::Home => b == set(EndpointListState { selected: 0, detail_scroll: 0, ..el }),
            Key::End => b == (if n > 0 {
                set(EndpointListState { selected: (n - 1) as usize, detail_scroll: 0, ..el })
            } else {
                a
            }),
            Key::PageUp => b == set(EndpointListState { selected: step_up(el.selected as int, page) as usize, detail_scroll: 0, ..el }),
            Key::PageDown => b == (if n > 0 {
                set(EndpointListState { selected: step_down(el.selected as int, page, n as int) as usize, detail_scroll: 0, ..el })
            } else {
                a
            }),
            Key::Tab => b == set(EndpointListState { detail_focused: true, detail_scroll: 0, ..el }),
            Key::Char('s') => b == set(EndpointListState { sort_mode: el.sort_mode.next_spec(), selected: 0, ..el }),
            Key::Char('c') => b == (if el.selected < n { set(EndpointListState { show_curl: true, ..el }) } else { a }),
            Key::Char('/') => {
                &&& b == set(EndpointListState { filter: b.endpoint_list.filter, selected: 0, filter_active: true, ..el })
                &&& b.endpoint_list.filter@.len() == 0
            },
            Key::Enter => if el.selected < n {
                &&& b == App { request_builder: b.request_builder, screen: Screen::RequestBuilder, ..a }
                &&& built_from(
                    b.request_builder,
                    el.endpoints@[el.shown()[el.selected as int]],
                    el.server_base,
                    headers_of(a.config.servers@, el.server_name@),
                )
            } else {
                b == a
            },
            _ => b == a,
        }
    }
}

impl App {
    /// Reacts to a key on the endpoint list (see [`endpoint_list_done`]).
    pub fn handle_endpoint_list(&mut self, key: Key)
        requires
            endpoint_list_key_ok(*old(self), key),
        ensures
            endpoint_list_done(*old(self), *final(self), key),
    {
        if self.endpoint_list.show_curl {
            match key {
                Key::Esc | Key::Char('c') => {
                    self.endpoint_list.show_curl = false;
                },
                _ => {},
            }
            return;
        }
        if self.endpoint_list.detail_focused {
            match key {
                Key::Char('j') | Key::Down => {
                    self.endpoint_list.detail_scroll = sat_add_exec(self.endpoint_list.detail_scroll, 1);
                },
                Key::Char('k') | Key::Up => {
                    self.endpoint_list.detail_scroll = sat_sub_exec(self.endpoint_list.detail_scroll, 1);
                },
                Key::Tab | Key::Esc => {
                    self.endpoint_list.detail_focused = false;
                },
                _ => {},
            }
            return;
        }
        if self.endpoint_list.filter_active {
            match key {
                Key::Esc => {
                    self.endpoint_list.filter_active = false;
                    self.endpoint_list.filter = String::new();
                    self.endpoint_list.selected = 0;
                },
                Key::Backspace => {
                    pop_char(&mut self.endpoint_list.filter);
                    self.endpoint_list.selected = 0;
                },
                Key::Char(c) => {
                    push_char(&mut self.endpoint_list.filter, c);
                    self.endpoint_list.selected = 0;
                },
                Key::Enter => {
                    self.endpoint_list.filter_active = false;
                },
                _ => {},
            }
            return;
        }
        match key {
            Key::Esc => {
                if chars_of(self.endpoint_list.filter.as_str()).len() > 0 {
                    self.endpoint_list.filter = String::new();
                    self.endpoint_list.selected = 0;
                } else {
                    self.screen = Screen::ServerList;
                }
            },
            Key::Char('q') => {
                self.should_quit = true;
            },
            Key::Char('E') => {
                self.open_env_picker();
            },
            Key::Char('j') | Key::Down => self.endpoint_list.next(),
            Key::Char('k') | Key::Up => self.endpoint_list.prev(),
            Key::Home => self.endpoint_list.home(),
            Key::End => self.endpoint_list.end(),
            Key::PageUp => self.endpoint_list.page_up(),
            Key::PageDown => self.endpoint_list.page_down(),
            Key::Tab => {
                self.endpoint_list.detail_focused = true;
                self.endpoint_list.detail_scroll = 0;
            },
            Key::Char('s') => {
                self.endpoint_list.sort_mode = self.endpoint_list.sort_mode.next();
                self.endpoint_list.selected = 0;
            },
            Key::Char('c') => {
                if self.endpoint_list.selected_endpoint().is_some() {
                    self.endpoint_list.show_curl = true;
                }
            },
            Key::Char('/') => {
                self.endpoint_list.filter_active = true;
                self.endpoint_list.filter = String::new();
                self.endpoint_list.selected = 0;
            },
            Key::Enter => {
                if let Some(ep) = self.endpoint_list.selected_endpoint() {
                    let base_url = self.endpoint_list.server_base.clone();
                    let empty: Vec<(String, String)> = Vec::new();
                    let rb = match server_named_exec(&self.config.servers, self.endpoint_list.server_name.as_str()) {
                        Some(i) => RequestBuilderState::from_endpoint(ep, base_url, &self.config.servers[i].default_headers),
                        None => RequestBuilderState::from_endpoint(ep, base_url, &empty),
                    };
                    self.request_builder = rb;
                    self.screen = Screen::RequestBuilder;
                }
            },
            _ => {},
        }
    }
}

// ── Request builder ──────────────────────────────────────────────────────────

/// The TLS settings of the server named `name`, or none.
pub open spec fn tls_of(servers: Seq<ServerEntry>, name: Seq<char>) -> TlsConfig {
    match server_named(servers, name) {
        Some(i) => servers[i].tls,
        None => TlsConfig { client_cert: None, client_key: None, ca_cert: None },
    }
}

/// Whether a key on the request builder runs without overflow or a slice past the
/// end: the cursor must lie within the text it edits or moves in.
pub open spec fn request_builder_key_ok(a: App, key: Key) -> bool {
    let rb = a.request_builder;
    let rv = rows_view(rb.rows@);
    let in_body = rb.cursor <= body_text(rv).len();
    &&& key == Key::Char('E') ==> picker_can_open(a)
    &&& match rb.focus {
        FocusedPane::ParamsNav => match key {
            Key::Char('j') | Key::Down => param_count_of(rv) > 0 ==> rb.selected < usize::MAX,
            _ => true,
        },
        FocusedPane::ParamsEdit => match key {
            Key::Backspace => rb.selected < rb.rows@.len() && rb.cursor > 0 ==> rb.cursor <= rb.rows@[rb.selected as int].value@.len(),
            Key::Char(_) => rb.selected < rb.rows@.len() ==> rb.cursor < usize::MAX,
            _ => true,
        },
        FocusedPane::BodyNormal => match (rb.pending_key, key) {
            (Some('d'), Key::Char('d')) => body_index(rv) is Some ==> in_body,
            (Some(_), _) => true,
            (None, Key::Char('k')) | (None, Key::Up) | (None, Key::Char('j')) | (None, Key::Down) | (None, Key::Char('0'))
            | (None, Key::Char('$')) | (None, Key::Char('I')) | (None, Key::Char('A')) => in_body,
            _ => true,
        },
        FocusedPane::BodyInsert => match key {
            Key::Backspace => body_index(rv) is Some && rb.cursor > 0 ==> in_body,
            Key::Enter | Key::Char(_) => body_index(rv) is Some ==> rb.cursor < usize::MAX,
            _ => true,
        },
    }
}

/// What a key does on the request builder, by the focused pane. Parameter pane: Esc
/// goes back, `q` quits, `j`/`k` and the arrows move between rows, Space switches an
/// optional row on or off, `e` edits the selected value (cursor at its end), Tab moves
/// to the body when there is one (the cursor brought within the body text), Enter asks for the request to be sent with the
/// server's TLS settings. Editing a value: Esc stops, Backspace and characters edit.
/// Body, normal mode: vim-like motions (`h` `l` `k` `j` `0` `$` `G` `gg`), `dd`
/// deletes the line, `dw` the word, `i` `a` `I` `A` enter insert mode, Esc or Tab go
/// back to the parameters; a key after a pending `g` or `d` that makes no command is
/// dropped. Body, insert mode: Esc leaves it, Backspace, Enter and characters edit.
pub open spec fn request_builder_done(a: App, b: App, key: Key, acts: Seq<Action>) -> bool {
    let rb = a.request_builder;
    let nb = b.request_builder;
    let set = |r: RequestBuilderState| App { request_builder: r, ..a };
    let only = b == App { request_builder: nb, ..a };
    let sent = match key {
        Key::Enter => rb.focus == FocusedPane::ParamsNav,
        _ => false,
    };
    &&& if sent {
        &&& acts.len() == 1
        &&& acts[0] matches Action::Send { request, tls } && env_request_of(request, rb, env_vars(a)) && tls == tls_of(
            a.config.servers@,
            a.endpoint_list.server_name@,
        )
    } else {
        acts.len() == 0
    }
    &&& match rb.focus {
        FocusedPane::ParamsNav => match key {
            Key::Esc => b == App { screen: Screen::EndpointList, ..a },
            Key::Char('q') => b == App { should_quit: true, ..a },
            Key::Char('E') => b == with_picker(a),
            Key::Char('j') | Key::Down => only && next_row_done(rb, nb),
            Key::Char('k') | Key::Up => only && prev_row_done(rb, nb),
            Key::Char(' ') => only && toggle_enabled_done(rb, nb),
            Key::Char('e') => b == set(RequestBuilderState {
                cursor: (if rb.selected < rb.rows@.len() { rb.rows@[rb.selected as int].value@.len() } else { 0 }) as usize,
                focus: FocusedPane::ParamsEdit,
                ..rb
            }),
            Key::Tab => b == (if body_index(rows_view(rb.rows@)) is Some {
                set(RequestBuilderState {
                    focus: FocusedPane::BodyNormal,
                    cursor: min(rb.cursor as int, body_text(rows_view(rb.rows@)).len() as int) as usize,
                    ..rb
                })
            } else {
                a
            }),
            _ => b == a,
        },
        FocusedPane::ParamsEdit => match key {
            Key::Esc => b == set(RequestBuilderState { focus: FocusedPane::ParamsNav, ..rb }),
            Key::Backspace => only && edit_backspace_done(rb, nb),
            Key::Char(c) => only && edit_char_done(rb, nb, c),
            _ => b == a,
        },
        FocusedPane::BodyNormal => {
            let rb0 = RequestBuilderState { pending_key: None, ..rb };
            let to_insert = nb.focus == FocusedPane::BodyInsert && only;
            let before = RequestBuilderState { focus: rb.focus, ..nb };
            match (rb.pending_key, key) {
                (Some('g'), Key::Char('g')) => only && body_goto_top_done(rb0, nb),
                (Some('d'), Key::Char('d')) => only && body_delete_line_done(rb0, nb),
                (Some('d'), Key::Char('w')) => only && body_delete_word_done(rb0, nb),
                (Some(_), _) => b == set(rb0),
                (None, Key::Esc) | (None, Key::Tab) => b == set(RequestBuilderState { focus: FocusedPane::ParamsNav, ..rb }),
                (None, Key::Char('h')) | (None, Key::Left) => only && cursor_left_done(rb, nb),
                (None, Key::Char('l')) | (None, Key::Right) => only && cursor_right_done(rb, nb),
                (None, Key::Char('k')) | (None, Key::Up) => only && cursor_up_done(rb, nb),
                (None, Key::Char('j')) | (None, Key::Down) => only && cursor_down_done(rb, nb),
                (None, Key::Char('0')) => only && cursor_line_start_done(rb, nb),
                (None, Key::Char('$')) => only && cursor_line_end_done(rb, nb),
                (None, Key::Char('G')) => only && body_goto_bottom_done(rb, nb),
                (None, Key::Char('g')) => b == set(RequestBuilderState { pending_key: Some('g'), ..rb }),
                (None, Key::Char('d')) => b == set(RequestBuilderState { pending_key: Some('d'), ..rb }),
                (None, Key::Char('i')) => b == set(RequestBuilderState { focus: FocusedPane::BodyInsert, ..rb }),
                (None, Key::Char('a')) => to_insert && cursor_right_done(rb, before),
                (None, Key::Char('I')) => to_insert && cursor_line_start_done(rb, before),
                (None, Key::Char('A')) => to_insert && cursor_line_end_done(rb, before),
                _ => b == a,
            }
        },
        FocusedPane::BodyInsert => match key {
            Key::Esc => b == set(RequestBuilderState { focus: FocusedPane::BodyNormal, ..rb }),
            Key::Backspace => only && edit_body_backspace_done(rb, nb),
            Key::Enter => only && edit_body_char_done(rb, nb, '\n'),
            Key::Char(c) => only && edit_body_char_done(rb, nb, c),
            _ => b == a,
        },
    }
}

impl App {
    /// Reacts to a key on the request builder (see [`request_builder_done`]).
    pub fn handle_request_builder(&mut self, key: Key) -> (acts: Vec<Action>)
        requires
            request_builder_key_ok(*old(self), key),
        ensures
            request_builder_done(*old(self), *final(self), key, acts@),
    {
        let mut acts: Vec<Action> = Vec::new();
        match self.request_builder.focus {
            FocusedPane::ParamsNav => match key {
                Key::Esc => {
                    self.screen = Screen::EndpointList;
                },
                Key::Char('q') => {
                    self.should_quit = true;
                },
                Key::Char('E') => {
                    self.open_env_picker();
                },
                Key::Char('j') | Key::Down => self.request_builder.next_row(),
                Key::Char('k') | Key::Up => self.request_builder.prev_row(),
                Key::Char(' ') => self.request_builder.toggle_enabled(),
                Key::Char('e') => {
                    let sel = self.request_builder.selected;
                    self.request_builder.cursor = if sel < self.request_builder.rows.len() {
                        chars_of(self.request_builder.rows[sel].value.as_str()).len()
                    } else {
                        0
                    };
                    self.request_builder.focus = FocusedPane::ParamsEdit;
                },
                Key::Tab => {
                    if self.request_builder.has_body() {
                        self.request_builder.focus_body();
                    }
                },
                Key::Enter => {
                    let plain = self.request_builder.build_request();
                    let none: Vec<(String, String)> = Vec::new();
                    let request = match self.active_vars() {
                        Some(vars) => plain.with_vars(vars),
                        None => {
                            assert(pairs_view(none@) =~= env_vars(*self));
                            plain.with_vars(&none)
                        },
                    };
                    let tls = match server_named_exec(&self.config.servers, self.endpoint_list.server_name.as_str()) {
                        Some(i) => clone_tls(&self.config.servers[i].tls),
                        None => TlsConfig { client_cert: None, client_key: None, ca_cert: None },
                    };
                    acts.push(Action::Send { request, tls });
                },
                _ => {},
            },
            FocusedPane::ParamsEdit => match key {
                Key::Esc => {
                    self.request_builder.focus = FocusedPane::ParamsNav;
                },
                Key::Backspace => self.request_builder.edit_backspace(),
                Key::Char(c) => self.request_builder.edit_char(c),
                _ => {},
            },
            FocusedPane::BodyNormal => {
                let pending = self.request_builder.pending_key;
                self.request_builder.pending_key = None;
                match (pending, key) {
                    (Some('g'), Key::Char('g')) => self.request_builder.body_goto_top(),
                    (Some('d'), Key::Char('d')) => self.request_builder.body_delete_line(),
                    (Some('d'), Key::Char('w')) => self.request_builder.body_delete_word(),
                    (Some(_), _) => {},
                    (None, Key::Esc) | (None, Key::Tab) => {
                        self.request_builder.focus = FocusedPane::ParamsNav;
                    },
                    (None, Key::Char('h')) | (None, Key::Left) => self.request_builder.cursor_left(),
                    (None, Key::Char('l')) | (None, Key::Right) => self.request_builder.cursor_right(),
                    (None, Key::Char('k')) | (None, Key::Up) => self.request_builder.cursor_up(),
                    (None, Key::Char('j')) | (None, Key::Down) => self.request_builder.cursor_down(),
                    (None, Key::Char('0')) => self.request_builder.cursor_line_start(),
                    (None, Key::Char('$')) => self.request_builder.cursor_line_end(),
                    (None, Key::Char('G')) => self.request_builder.body_goto_bottom(),
                    (None, Key::Char('g')) => {
                        self.request_builder.pending_key = Some('g');
                    },
                    (None, Key::Char('d')) => {
                        self.request_builder.pending_key = Some('d');
                    },
                    (None, Key::Char('i')) => {
                        self.request_builder.focus = FocusedPane::BodyInsert;
                    },
                    (None, Key::Char('a')) => {
                        self.request_builder.cursor_right();
                        self.request_builder.focus = FocusedPane::BodyInsert;
                    },
                    (None, Key::Char('I')) => {
                        self.request_builder.cursor_line_start();
                        self.request_builder.focus = FocusedPane::BodyInsert;
                    },
                    (None, Key::Char('A')) => {
                        self.request_builder.cursor_line_end();
                        self.request_builder.focus = FocusedPane::BodyInsert;
                    },
                    _ => {},
                }
            },
            FocusedPane::BodyInsert => match key {
                Key::Esc => {
                    self.request_builder.focus = FocusedPane::BodyNormal;
                },
                Key::Backspace => self.request_builder.edit_body_backspace(),
                Key::Enter => self.request_builder.edit_body_char('\n'),
                Key::Char(c) => self.request_builder.edit_body_char(c),
                _ => {},
            },
        }
        acts
    }
}

} // verus!
