//! The application: its state, the keys and background results it reacts to, and what
//! it asks its host to do (save the configuration, fetch a document, send a request,
//! write a file).

use vstd::prelude::*;
use crate::client::{RequestDef, ResponseResult, pairs_view};
use crate::config::{Config, ServerEntry, TlsConfig};
use crate::json::{pretty, push_str, push_str_chars, to_pretty_string};
use crate::openapi::{ApiSpec, Endpoint, ResolvedParam};
use crate::schema::str_is;
use crate::text::{
    chars_of, string_of, trim, trim_chars, trim_end_char, trim_end_char_of, replace_all,
    replace_all_exec, find, find_exec, starts_with, starts_with_exec,
};
use crate::theme::{Theme, theme_config_ok, theme_for};
use crate::views::add_server::AddServerState;
use crate::views::endpoint_list::EndpointListState;
use crate::views::request_builder::{RequestBuilderState, FocusedPane};
use crate::views::response_viewer::{ResponseViewerState, shown_body, viewing};
use crate::views::server_list::ServerListState;
use crate::views::env_picker::{EnvPickerState, picker_for, chosen};
use crate::views::request_builder::min;

pub mod screens;

use crate::app::screens::{
    server_list_key_ok, endpoint_list_key_ok, request_builder_key_ok, server_list_done, add_server_done,
    endpoint_list_done, request_builder_done, response_viewer_done,
};

verus! {

/// A key as the application reads it.
#[derive(PartialEq, Eq, Structural, Clone, Copy, Debug)]
pub enum Key {
    Char(char),
    Enter,
    Esc,
    Tab,
    Backspace,
    Up,
    Down,
    Left,
    Right,
    Home,
    End,
    PageUp,
    PageDown,
    /// The null key (sent by some terminals); it does not dismiss the error banner.
    Null,
    /// Any other key.
    Other,
}

#[derive(PartialEq, Eq, Structural, Clone, Copy, Debug)]
pub enum Screen {
    ServerList,
    AddServer,
    EndpointList,
    RequestBuilder,
    ResponseViewer,
}

/// Work the application hands to its host.
pub enum Action {
    /// Write the configuration back to its file (failures are ignored).
    SaveConfig,
    /// Fetch and parse the document of a server, then report a [`BgMsg`].
    Fetch { name: String, url: String, tls: TlsConfig },
    /// Send a request, then report a [`BgMsg`].
    Send { request: RequestDef, tls: TlsConfig },
    /// Write the response body to a file; on failure report it with
    /// [`App::save_failed`].
    WriteFile { path: String, body: String },
}

/// Results of background work.
pub enum BgMsg {
    SpecLoaded { server_name: String, spec: ApiSpec },
    SpecError { server_name: String, error: String },
    ResponseReady(ResponseResult),
    ResponseError(String),
}

pub struct App {
    pub config: Config,
    pub theme: Theme,
    /// Loaded documents by server name.
    pub specs: Vec<(String, ApiSpec)>,
    /// Names of the servers whose document is being fetched.
    pub spec_loading: Vec<String>,
    pub screen: Screen,
    pub server_list: ServerListState,
    pub add_server: AddServerState,
    pub endpoint_list: EndpointListState,
    pub request_builder: RequestBuilderState,
    pub response_viewer: ResponseViewerState,
    /// Transient error banner.
    pub error: Option<String>,
    pub should_quit: bool,
    /// The environment whose variables are filled into requests, by index.
    pub active_env: Option<usize>,
    /// When each server's document was last loaded, in seconds on the host's clock.
    pub last_refreshed: Vec<(String, u64)>,
    /// The environment selector, while it is open.
    pub env_picker: Option<EnvPickerState>,
}

/// The variables of the active environment (none when no environment, or no
/// environment of that index, is active).
pub open spec fn env_vars(a: App) -> Seq<(Seq<char>, Seq<char>)> {
    match a.active_env {
        Some(i) => if i < a.config.environments@.len() {
            pairs_view(a.config.environments@[i as int].variables@)
        } else {
            Seq::empty()
        },
        None => Seq::empty(),
    }
}

/// Whether the environment selector can be opened without overflow.
pub open spec fn picker_can_open(a: App) -> bool {
    &&& a.config.environments@.len() < usize::MAX
    &&& a.active_env matches Some(i) ==> i < usize::MAX
}

/// `a` with the environment selector open on the active environment.
pub open spec fn with_picker(a: App) -> App {
    App { env_picker: Some(picker_for(a.config.environments@.len() as usize, a.active_env)), ..a }
}

/// Whether a key can be taken by the open environment selector.
pub open spec fn picker_key_ok(p: EnvPickerState, key: Key) -> bool {
    (key == Key::Char('j') || key == Key::Down) && p.count > 0 ==> p.selected < usize::MAX
}

/// What a key does in the environment selector: `j`/`k` and the arrows move, Enter
/// makes the selected environment the active one and closes it, Esc closes it.
pub open spec fn env_picker_done(a: App, b: App, key: Key, p: EnvPickerState) -> bool {
    match key {
        Key::Char('j') | Key::Down => b == App {
            env_picker: Some(EnvPickerState {
                selected: (if p.count > 0 { min(p.selected + 1, p.count - 1) } else { p.selected as int }) as usize,
                ..p
            }),
            ..a
        },
        Key::Char('k') | Key::Up => b == App {
            env_picker: Some(EnvPickerState { selected: (if p.selected > 0 { p.selected - 1 } else { 0 }) as usize, ..p }),
            ..a
        },
        Key::Enter => b == App { active_env: chosen(p), env_picker: None, ..a },
        Key::Esc => b == App { env_picker: None, ..a },
        _ => b == a,
    }
}

// ── Keyed lists ──────────────────────────────────────────────────────────────

/// Position of the first entry with key `k`.
pub open spec fn key_index<T>(v: Seq<(String, T)>, k: Seq<char>) -> Option<int>
    decreases v.len(),
{
    if v.len() == 0 {
        None
    } else if v[0].0@ == k {
        Some(0)
    } else {
        match key_index(v.drop_first(), k) {
            Some(i) => Some(i + 1),
            None => None,
        }
    }
}

/// The keys of a keyed list, as texts.
pub open spec fn key_names<T>(v: Seq<(String, T)>) -> Seq<Seq<char>> {
    v.map_values(|e: (String, T)| e.0@)
}

/// The entries whose key is not `k`, in order.
pub open spec fn without_key<T>(v: Seq<(String, T)>, k: Seq<char>) -> Seq<(String, T)>
    decreases v.len(),
{
    if v.len() == 0 {
        Seq::empty()
    } else {
        without_key(v.drop_last(), k) + if v.last().0@ == k {
            Seq::empty()
        } else {
            seq![v.last()]
        }
    }
}

/// The texts of `v`.
pub open spec fn texts(v: Seq<String>) -> Seq<Seq<char>> {
    v.map_values(|s: String| s@)
}

/// `v` without the texts equal to `k`.
pub open spec fn without_text(v: Seq<Seq<char>>, k: Seq<char>) -> Seq<Seq<char>>
    decreases v.len(),
{
    if v.len() == 0 {
        Seq::empty()
    } else {
        without_text(v.drop_last(), k) + if v.last() == k {
            Seq::empty()
        } else {
            seq![v.last()]
        }
    }
}

/// `v` with `k` added unless present.
pub open spec fn with_text(v: Seq<Seq<char>>, k: Seq<char>) -> Seq<Seq<char>> {
    if v.contains(k) {
        v
    } else {
        v.push(k)
    }
}

pub fn key_index_exec<T>(v: &Vec<(String, T)>, k: &str) -> (r: Option<usize>)
    ensures
        match r {
            Some(i) => i < v@.len() && key_index(v@, k@) == Some(i as int),
            None => key_index(v@, k@) is None,
        },
{
    let mut i: usize = 0;
    assert(v@.skip(0) =~= v@);
    while i < v.len()
        invariant
            i <= v@.len(),
            key_index(v@, k@) == match key_index(v@.skip(i as int), k@) {
                Some(j) => Some(j + i),
                None => None,
            },
        decreases v@.len() - i,
    {
        assert(v@.skip(i as int)[0] == v@[i as int]);
        if str_is(v[i].0.as_str(), k) {
            return Some(i);
        }
        assert(v@.skip(i as int).drop_first() =~= v@.skip(i + 1));
        i = i + 1;
    }
    None
}

fn remove_key<T>(v: &mut Vec<(String, T)>, k: &str)
    ensures
        final(v)@ == without_key(old(v)@, k@),
{
    let ghost orig = v@;
    let ghost mut j: int = 0;
    let mut i: usize = 0;
    assert(orig.take(0) =~= Seq::<(String, T)>::empty());
    assert(v@.skip(0) =~= orig.skip(0));
    while i < v.len()
        invariant
            0 <= i <= v@.len(),
            0 <= j <= orig.len(),
            v@.take(i as int) == without_key(orig.take(j), k@),
            v@.skip(i as int) == orig.skip(j),
        decreases v@.len() - i,
    {
        let ghost cur = v@[i as int];
        assert(v@.skip(i as int)[0] == cur);
        assert(orig.skip(j)[0] == cur);
        assert(v@.skip(i as int).len() > 0);
        assert(j < orig.len());
        assert(orig.take(j + 1).drop_last() =~= orig.take(j));
        assert(orig.take(j + 1).last() == cur);
        if str_is(v[i].0.as_str(), k) {
            let ghost before = v@;
            v.remove(i);
            assert(v@.take(i as int) =~= before.take(i as int));
            assert(v@.skip(i as int) =~= before.skip(i + 1));
            assert(before.skip(i + 1) =~= orig.skip(j).drop_first());
            assert(orig.skip(j).drop_first() =~= orig.skip(j + 1));
        } else {
            assert(v@.take(i + 1) =~= v@.take(i as int).push(cur));
            assert(v@.skip(i + 1) =~= v@.skip(i as int).drop_first());
            assert(orig.skip(j).drop_first() =~= orig.skip(j + 1));
            i = i + 1;
        }
        proof {
            j = j + 1;
        }
    }
    assert(orig.skip(j).len() == 0);
    assert(orig.take(j) =~= orig);
    assert(v@.take(i as int) =~= v@);
}

fn remove_text(v: &mut Vec<String>, k: &str)
    ensures
        texts(final(v)@) == without_text(texts(old(v)@), k@),
{
    let ghost orig = texts(v@);
    let ghost mut j: int = 0;
    let mut i: usize = 0;
    assert(orig.take(0) =~= Seq::<Seq<char>>::empty());
    assert(texts(v@).skip(0) =~= orig.skip(0));
    while i < v.len()
        invariant
            0 <= i <= v@.len(),
            0 <= j <= orig.len(),
            texts(v@).take(i as int) == without_text(orig.take(j), k@),
            texts(v@).skip(i as int) == orig.skip(j),
        decreases v@.len() - i,
    {
        let ghost cur = v@[i as int]@;
        assert(texts(v@).skip(i as int)[0] == cur);
        assert(orig.skip(j)[0] == cur);
        assert(texts(v@).skip(i as int).len() > 0);
        assert(j < orig.len());
        assert(orig.take(j + 1).drop_last() =~= orig.take(j));
        assert(orig.take(j + 1).last() == cur);
        if str_is(v[i].as_str(), k) {
            let ghost before = texts(v@);
            v.remove(i);
            assert(texts(v@).take(i as int) =~= before.take(i as int));
            assert(texts(v@).skip(i as int) =~= before.skip(i + 1));
            assert(before.skip(i + 1) =~= orig.skip(j).drop_first());
            assert(orig.skip(j).drop_first() =~= orig.skip(j + 1));
        } else {
            assert(texts(v@).take(i + 1) =~= texts(v@).take(i as int).push(cur));
            assert(texts(v@).skip(i + 1) =~= texts(v@).skip(i as int).drop_first());
            assert(orig.skip(j).drop_first() =~= orig.skip(j + 1));
            i = i + 1;
        }
        proof {
            j = j + 1;
        }
    }
    assert(orig.skip(j).len() == 0);
    assert(orig.take(j) =~= orig);
    assert(texts(v@).take(i as int) =~= texts(v@));
}

fn add_text(v: &mut Vec<String>, k: String)
    ensures
        texts(final(v)@) == with_text(texts(old(v)@), k@),
{
    let mut i: usize = 0;
    while i < v.len()
        invariant
            i <= v@.len(),
            forall|q: int| 0 <= q < i ==> v@[q]@ != k@,
        decreases v@.len() - i,
    {
        if str_is(v[i].as_str(), k.as_str()) {
            assert(texts(v@)[i as int] == k@);
            return;
        }
        i = i + 1;
    }
    assert(!texts(v@).contains(k@));
    let ghost before = texts(v@);
    v.push(k);
    assert(texts(v@) =~= before.push(k@));
}

// ── Helpers ──────────────────────────────────────────────────────────────────

/// The base URL of the requests: a server URL that starts with `http://` or
/// `https://` as it is; a relative one appended (with a `/` between) to the scheme and
/// host of the URL the document was fetched from; as it is if that has no scheme.
pub open spec fn server_base(spec_url: Seq<char>, server_url: Seq<char>) -> Seq<char> {
    if starts_with(server_url, "http://"@) || starts_with(server_url, "https://"@) {
        server_url
    } else {
        match find(spec_url, "://"@) {
            Some(e) => {
                let after = spec_url.skip(e + 3);
                let host_end = match find(after, "/"@) {
                    Some(h) => h,
                    None => after.len() as int,
                };
                let origin = spec_url.take(e + 3 + host_end);
                if starts_with(server_url, "/"@) {
                    origin + server_url
                } else {
                    origin + "/"@ + server_url
                }
            },
            None => server_url,
        }
    }
}

pub proof fn lemma_find_bound(s: Seq<char>, p: Seq<char>)
    ensures
        find(s, p) matches Some(i) ==> 0 <= i && i + p.len() <= s.len(),
    decreases s.len(),
{
    if !crate::text::occurs_at(s, p, 0) && s.len() > 0 {
        lemma_find_bound(s.drop_first(), p);
    }
}

/// Resolves a server URL of the document against the URL it was fetched from (see
/// [`server_base`]).
pub fn resolve_server_base(spec_url: &str, server_url: &str) -> (r: String)
    ensures
        r@ == server_base(spec_url@, server_url@),
{
    if starts_with_exec(server_url, "http://") || starts_with_exec(server_url, "https://") {
        return string_of(chars_of(server_url).as_slice());
    }
    let s = chars_of(spec_url);
    let slen = s.len();
    let sep = chars_of("://");
    match find_exec(&s, &sep) {
        Some(e) => {
            proof {
                reveal_strlit("://");
                lemma_find_bound(spec_url@, "://"@);
                assert(sep@.len() == 3);
                assert(e + 3 <= s@.len());
            }
            let mut after: Vec<char> = Vec::new();
            let mut i: usize = e + 3;
            while i < s.len()
                invariant
                    e + 3 <= i <= s@.len(),
                    after@ == s@.subrange(e + 3, i as int),
                decreases s@.len() - i,
            {
                after.push(s[i]);
                assert(after@ =~= s@.subrange(e + 3, i + 1));
                i = i + 1;
            }
            assert(after@ =~= spec_url@.skip(e + 3));
            let slash = chars_of("/");
            proof {
                lemma_find_bound(after@, "/"@);
            }
            let host_end = match find_exec(&after, &slash) {
                Some(h) => h,
                None => after.len(),
            };
            proof {
                reveal_strlit("/");
                assert(slash@.len() == 1);
                assert(host_end <= after@.len());
            }
            let mut out: Vec<char> = Vec::new();
            let mut k: usize = 0;
            let end = e + 3 + host_end;
            while k < end
                invariant
                    end <= s@.len(),
                    k <= end,
                    out@ == s@.take(k as int),
                decreases end - k,
            {
                out.push(s[k]);
                assert(out@ =~= s@.take(k + 1));
                k = k + 1;
            }
            if !starts_with_exec(server_url, "/") {
                push_str(&mut out, "/");
            }
            push_str(&mut out, server_url);
            string_of(out.as_slice())
        },
        None => string_of(chars_of(server_url).as_slice()),
    }
}

/// `s` without surrounding white space, if anything is left.
pub open spec fn non_empty_text(s: Seq<char>) -> Option<Seq<char>> {
    if trim(s).len() == 0 {
        None
    } else {
        Some(trim(s))
    }
}

/// The trimmed text of a form field, or `None` when it is blank.
pub fn non_empty(s: &str) -> (r: Option<String>)
    ensures
        match r {
            Some(t) => non_empty_text(s@) == Some(t@),
            None => non_empty_text(s@) is None,
        },
{
    let t = trim_chars(&chars_of(s));
    if t.len() == 0 {
        None
    } else {
        Some(string_of(t.as_slice()))
    }
}

// ── curl command ─────────────────────────────────────────────────────────────

/// `s` without every trailing repetition of the non-empty `p`.
pub open spec fn strip_suffixes(s: Seq<char>, p: Seq<char>) -> Seq<char>
    decreases s.len(),
{
    if p.len() > 0 && p.len() <= s.len() && s.skip(s.len() - p.len()) == p {
        strip_suffixes(s.take(s.len() - p.len()), p)
    } else {
        s
    }
}

/// A `-H` line for each header parameter.
pub open spec fn curl_header_lines(ps: Seq<ResolvedParam>) -> Seq<Seq<char>>
    decreases ps.len(),
{
    if ps.len() == 0 {
        Seq::empty()
    } else {
        curl_header_lines(ps.drop_last()) + if ps.last().location@ == "header"@ {
            seq!["  -H '"@ + ps.last().name@ + ": <value>' \\"@]
        } else {
            Seq::empty()
        }
    }
}

/// The lines of the template curl command for an endpoint: the method, the quoted URL
/// (base without trailing `/`s, then the path), a placeholder for each header
/// parameter, and for a body its content type and its indented example quoted for the
/// shell; every line but the last ends in ` \`.
pub open spec fn curl_lines(base: Seq<char>, ep: Endpoint) -> Seq<Seq<char>> {
    let head = seq![
        "curl -X "@ + ep.method@ + " \\"@,
        "  '"@ + trim_end_char(base, '/') + ep.path@ + "' \\"@,
    ] + curl_header_lines(ep.parameters@);
    match ep.request_body {
        Some(b) => head + seq![
            "  -H 'Content-Type: "@ + b.content_type@ + "' \\"@,
            "  -d '"@ + replace_all(pretty(b.example@), "'"@, "'\\''"@) + "'"@,
        ],
        None => head.update(head.len() - 1, strip_suffixes(head.last(), " \\"@)),
    }
}

/// Lines joined with line feeds.
pub open spec fn joined(ls: Seq<Seq<char>>) -> Seq<char>
    decreases ls.len(),
{
    if ls.len() == 0 {
        Seq::empty()
    } else if ls.len() == 1 {
        ls[0]
    } else {
        joined(ls.drop_last()) + seq!['\n'] + ls.last()
    }
}

fn strip_suffixes_exec(s: &Vec<char>, p: &Vec<char>) -> (r: Vec<char>)
    requires
        p@.len() > 0,
    ensures
        r@ == strip_suffixes(s@, p@),
{
    let mut n: usize = s.len();
    assert(s@.take(n as int) =~= s@);
    loop
        invariant
            n <= s@.len(),
            p@.len() > 0,
            strip_suffixes(s@, p@) == strip_suffixes(s@.take(n as int), p@),
        ensures
            n <= s@.len(),
            strip_suffixes(s@, p@) == s@.take(n as int),
        decreases n,
    {
        if p.len() > n {
            break;
        }
        let mut k: usize = 0;
        let mut same = true;
        while k < p.len()
            invariant
                p@.len() <= n <= s@.len(),
                k <= p@.len(),
                same == (forall|q: int| 0 <= q < k ==> s@[n - p@.len() + q] == p@[q]),
            decreases p@.len() - k,
        {
            if s[n - p.len() + k] != p[k] {
                same = false;
            }
            k = k + 1;
        }
        let ghost t = s@.take(n as int);
        if same {
            assert(t.skip(t.len() - p@.len()) =~= p@);
            assert(t.take(t.len() - p@.len()) =~= s@.take(n - p@.len()));
            n = n - p.len();
        } else {
            proof {
                let q = choose|q: int| 0 <= q < p@.len() && s@[n - p@.len() + q] != p@[q];
                assert(t.skip(t.len() - p@.len())[q] != p@[q]);
            }
            break;
        }
    }
    let mut r: Vec<char> = Vec::new();
    let mut i: usize = 0;
    while i < n
        invariant
            n <= s@.len(),
            i <= n,
            r@ == s@.take(i as int),
        decreases n - i,
    {
        r.push(s[i]);
        assert(r@ =~= s@.take(i + 1));
        i = i + 1;
    }
    r
}

fn text_line(parts: &Vec<char>) -> (r: Vec<char>)
    ensures
        r@ == parts@,
{
    let mut r: Vec<char> = Vec::new();
    push_str_chars(&mut r, parts);
    r
}

/// A template curl command for an endpoint (see [`curl_lines`]).
pub fn build_curl_command(server_base: &str, ep: &Endpoint) -> (r: String)
    ensures
        r@ == joined(curl_lines(server_base@, *ep)),
{
    let mut lines: Vec<Vec<char>> = Vec::new();
    let mut l0: Vec<char> = Vec::new();
    push_str(&mut l0, "curl -X ");
    push_str(&mut l0, ep.method.as_str());
    push_str(&mut l0, " \\");
    lines.push(l0);
    let base = trim_end_char_of(&chars_of(server_base), '/');
    let mut l1: Vec<char> = Vec::new();
    push_str(&mut l1, "  '");
    push_str_chars(&mut l1, &base);
    push_str(&mut l1, ep.path.as_str());
    push_str(&mut l1, "' \\");
    lines.push(l1);
    let ghost start = lines@.map_values(|l: Vec<char>| l@);
    let mut i: usize = 0;
    while i < ep.parameters.len()
        invariant
            i <= ep.parameters@.len(),
            lines@.map_values(|l: Vec<char>| l@) == start + curl_header_lines(ep.parameters@.take(i as int)),
        decreases ep.parameters@.len() - i,
    {
        let p = &ep.parameters[i];
        let ghost before = lines@.map_values(|l: Vec<char>| l@);
        assert(ep.parameters@.take(i + 1).drop_last() =~= ep.parameters@.take(i as int));
        assert(ep.parameters@.take(i + 1).last() == ep.parameters@[i as int]);
        if str_is(p.location.as_str(), "header") {
            let mut l: Vec<char> = Vec::new();
            push_str(&mut l, "  -H '");
            push_str(&mut l, p.name.as_str());
            push_str(&mut l, ": <value>' \\");
            let ghost lv = l@;
            lines.push(l);
            assert(lines@.map_values(|l: Vec<char>| l@) =~= before.push(lv));
        }
        assert(lines@.map_values(|l: Vec<char>| l@) =~= start + curl_header_lines(ep.parameters@.take(i + 1)));
        i = i + 1;
    }
    assert(ep.parameters@.take(ep.parameters@.len() as int) =~= ep.parameters@);
    let ghost head = lines@.map_values(|l: Vec<char>| l@);
    match &ep.request_body {
        Some(body) => {
            let mut l2: Vec<char> = Vec::new();
            push_str(&mut l2, "  -H 'Content-Type: ");
            push_str(&mut l2, body.content_type.as_str());
            push_str(&mut l2, "' \\");
            let ghost v2 = l2@;
            lines.push(l2);
            let example = chars_of(to_pretty_string(&body.example).as_str());
            let quote = chars_of("'");
            let escaped_quote = chars_of("'\\''");
            proof {
                reveal_strlit("'");
            }
            let escaped = replace_all_exec(&example, &quote, &escaped_quote);
            let mut l3: Vec<char> = Vec::new();
            push_str(&mut l3, "  -d '");
            push_str_chars(&mut l3, &escaped);
            push_str(&mut l3, "'");
            let ghost v3 = l3@;
            lines.push(l3);
            assert(lines@.map_values(|l: Vec<char>| l@) =~= head + seq![v2, v3]);
        },
        None => {
            let n = lines.len();
            let last = text_line(&lines[n - 1]);
            let sep = chars_of(" \\");
            proof {
                reveal_strlit(" \\");
            }
            let stripped = strip_suffixes_exec(&last, &sep);
            lines.set(n - 1, stripped);
            assert(lines@.map_values(|l: Vec<char>| l@) =~= head.update(head.len() - 1, strip_suffixes(head.last(), " \\"@)));
        },
    }
    assert(lines@.map_values(|l: Vec<char>| l@) == curl_lines(server_base@, *ep));
    let ghost all = lines@.map_values(|l: Vec<char>| l@);
    let mut out: Vec<char> = Vec::new();
    let mut j: usize = 0;
    while j < lines.len()
        invariant
            j <= lines@.len(),
            all == lines@.map_values(|l: Vec<char>| l@),
            out@ == joined(all.take(j as int)),
        decreases lines@.len() - j,
    {
        if j > 0 {
            out.push('\n');
        }
        push_str_chars(&mut out, &lines[j]);
        assert(all.take(j + 1).drop_last() =~= all.take(j as int));
        assert(all.take(j + 1).last() == all[j as int]);
        if j == 0 {
            assert(all.take(0) =~= Seq::<Seq<char>>::empty());
        }
        assert(out@ =~= joined(all.take(j + 1)));
        j = j + 1;
    }
    assert(all.take(all.len() as int) =~= all);
    string_of(out.as_slice())
}

// ── Building the state ───────────────────────────────────────────────────────

fn clone_opt(o: &Option<String>) -> (r: Option<String>)
    ensures
        r == *o,
{
    match o {
        Some(s) => Some(s.clone()),
        None => None,
    }
}

/// A copy of a TLS configuration.
pub fn clone_tls(t: &TlsConfig) -> (r: TlsConfig)
    ensures
        r == *t,
{
    TlsConfig {
        client_cert: clone_opt(&t.client_cert),
        client_key: clone_opt(&t.client_key),
        ca_cert: clone_opt(&t.ca_cert),
    }
}

/// `a`, `b` and `c` run together.
pub fn concat3(a: &str, b: &str, c: &str) -> (r: String)
    ensures
        r@ == a@ + b@ + c@,
{
    let mut out: Vec<char> = Vec::new();
    push_str(&mut out, a);
    push_str(&mut out, b);
    push_str(&mut out, c);
    string_of(out.as_slice())
}

/// What taking in a background result does (see [`App::handle_bg`]).
pub open spec fn bg_done(a: App, b: App, msg: BgMsg, now: u64) -> bool {
    match msg {
        BgMsg::SpecLoaded { server_name, spec } => {
            &&& texts(b.spec_loading@) == without_text(texts(a.spec_loading@), server_name@)
            &&& b.specs@ == match key_index(a.specs@, server_name@) {
                Some(i) => a.specs@.update(i, (a.specs@[i].0, spec)),
                None => a.specs@.push((server_name, spec)),
            }
            &&& key_names(b.last_refreshed@) == match key_index(a.last_refreshed@, server_name@) {
                Some(i) => key_names(a.last_refreshed@),
                None => key_names(a.last_refreshed@).push(server_name@),
            }
            &&& b.last_refreshed@.map_values(|e: (String, u64)| e.1) == match key_index(a.last_refreshed@, server_name@) {
                Some(i) => a.last_refreshed@.map_values(|e: (String, u64)| e.1).update(i, now),
                None => a.last_refreshed@.map_values(|e: (String, u64)| e.1).push(now),
            }
            &&& b == App { specs: b.specs, spec_loading: b.spec_loading, last_refreshed: b.last_refreshed, ..a }
        },
        BgMsg::SpecError { server_name, error } => {
            &&& texts(b.spec_loading@) == without_text(texts(a.spec_loading@), server_name@)
            &&& b.error matches Some(e) && e@ == "Failed to load spec for '"@ + server_name@ + "': "@ + error@
            &&& b == App { spec_loading: b.spec_loading, error: b.error, ..a }
        },
        BgMsg::ResponseReady(resp) => {
            &&& viewing(b.response_viewer, resp)
            &&& b == App {
                response_viewer: b.response_viewer,
                screen: Screen::ResponseViewer,
                ..a
            }
        },
        BgMsg::ResponseError(e) => {
            &&& b.error matches Some(m) && m@ == "Request failed: "@ + e@
            &&& b == App { error: b.error, ..a }
        },
    }
}

impl App {
    /// The application over a configuration: server list shown, nothing loaded.
    pub fn new(config: Config) -> (app: App)
        requires
            theme_config_ok(config.theme),
        ensures
            app.config == config,
            app.theme == theme_for(config.theme),
            app.specs@.len() == 0,
            app.spec_loading@.len() == 0,
            app.screen == Screen::ServerList,
            app.server_list.selected == 0 && app.server_list.page_size == 10,
            app.add_server.blank(),
            app.endpoint_list.endpoints@.len() == 0 && app.endpoint_list.fresh(),
            app.request_builder.rows@.len() == 0,
            app.response_viewer.body@.len() == 0,
            app.error is None,
            !app.should_quit,
            app.active_env is None,
            app.env_picker is None,
            app.last_refreshed@.len() == 0,
    {
        let theme = Theme::from_config(&config.theme);
        App {
            config,
            theme,
            specs: Vec::new(),
            spec_loading: Vec::new(),
            screen: Screen::ServerList,
            server_list: ServerListState::default(),
            add_server: AddServerState::default(),
            endpoint_list: EndpointListState::default(),
            request_builder: RequestBuilderState::default(),
            response_viewer: ResponseViewerState::default(),
            error: None,
            should_quit: false,
            active_env: None,
            env_picker: None,
            last_refreshed: Vec::new(),
        }
    }

    /// Takes in the result of background work, `now` being the host's clock in seconds:
    /// a loaded document is stored under its server's name (replacing an earlier one),
    /// the server is recorded as refreshed at `now` and stops loading; a failed
    /// load stops it loading and shows an error; a response opens the viewer; a failed
    /// request shows an error.
    pub fn handle_bg(&mut self, msg: BgMsg, now: u64)
        ensures
            bg_done(*old(self), *final(self), msg, now),
    {
        match msg {
            BgMsg::SpecLoaded { server_name, spec } => {
                remove_text(&mut self.spec_loading, server_name.as_str());
                let ghost before = self.last_refreshed@;
                match key_index_exec(&self.last_refreshed, server_name.as_str()) {
                    Some(i) => {
                        let k = self.last_refreshed[i].0.clone();
                        self.last_refreshed.set(i, (k, now));
                        assert(key_names(self.last_refreshed@) =~= key_names(before));
                        assert(self.last_refreshed@.map_values(|e: (String, u64)| e.1)
                            =~= before.map_values(|e: (String, u64)| e.1).update(i as int, now));
                    },
                    None => {
                        let k = server_name.clone();
                        self.last_refreshed.push((k, now));
                        assert(key_names(self.last_refreshed@) =~= key_names(before).push(server_name@));
                        assert(self.last_refreshed@.map_values(|e: (String, u64)| e.1)
                            =~= before.map_values(|e: (String, u64)| e.1).push(now));
                    },
                }
                match key_index_exec(&self.specs, server_name.as_str()) {
                    Some(i) => {
                        let k = self.specs[i].0.clone();
                        self.specs.set(i, (k, spec));
                    },
                    None => {
                        self.specs.push((server_name, spec));
                    },
                }
            },
            BgMsg::SpecError { server_name, error } => {
                remove_text(&mut self.spec_loading, server_name.as_str());
                let mut out: Vec<char> = Vec::new();
                push_str(&mut out, "Failed to load spec for '");
                push_str(&mut out, server_name.as_str());
                push_str(&mut out, "': ");
                push_str(&mut out, error.as_str());
                self.error = Some(string_of(out.as_slice()));
            },
            BgMsg::ResponseReady(resp) => {
                self.response_viewer = ResponseViewerState::from_response(resp);
                self.screen = Screen::ResponseViewer;
            },
            BgMsg::ResponseError(e) => {
                self.error = Some(concat3("Request failed: ", e.as_str(), ""));
                assert(("Request failed: "@ + e@ + ""@) =~= "Request failed: "@ + e@) by {
                    reveal_strlit("");
                }
            },
        }
    }

    /// Reports that writing the response body to `path` failed with `reason`.
    pub fn save_failed(&mut self, path: &str, reason: &str)
        ensures
            final(self).error matches Some(m) && m@ == "Failed to save '"@ + path@ + "': "@ + reason@,
            *final(self) == (App { error: final(self).error, ..*old(self) }),
    {
        let mut out: Vec<char> = Vec::new();
        push_str(&mut out, "Failed to save '");
        push_str(&mut out, path);
        push_str(&mut out, "': ");
        push_str(&mut out, reason);
        self.error = Some(string_of(out.as_slice()));
    }
}

impl App {
    /// Whether the environment selector can be opened (see [`picker_can_open`]).
    pub fn picker_can_open_exec(&self) -> (b: bool)
        ensures
            b == picker_can_open(*self),
    {
        self.config.environments.len() < usize::MAX && match self.active_env {
            Some(i) => i < usize::MAX,
            None => true,
        }
    }

    /// Opens the environment selector on the active environment.
    pub fn open_env_picker(&mut self)
        requires
            picker_can_open(*old(self)),
        ensures
            *final(self) == with_picker(*old(self)),
    {
        let n = self.config.environments.len();
        self.env_picker = Some(EnvPickerState::new(n, self.active_env));
    }

    /// The variables of the active environment, if one is active (see [`env_vars`]).
    pub fn active_vars(&self) -> (r: Option<&Vec<(String, String)>>)
        ensures
            match r {
                Some(v) => pairs_view(v@) == env_vars(*self),
                None => env_vars(*self).len() == 0,
            },
    {
        match self.active_env {
            Some(i) => if i < self.config.environments.len() {
                Some(&self.config.environments[i].variables)
            } else {
                None
            },
            None => None,
        }
    }

    /// The name of the active environment, if one is active.
    pub fn active_env_name(&self) -> (r: Option<String>)
        ensures
            match r {
                Some(n) => self.active_env matches Some(i) && i < self.config.environments@.len()
                    && n@ == self.config.environments@[i as int].name@,
                None => !(self.active_env matches Some(i) && i < self.config.environments@.len()),
            },
    {
        match self.active_env {
            Some(i) => if i < self.config.environments.len() {
                Some(string_of(chars_of(self.config.environments[i].name.as_str()).as_slice()))
            } else {
                None
            },
            None => None,
        }
    }

    /// Reacts to a key in the open environment selector (see [`env_picker_done`]).
    fn handle_env_picker(&mut self, key: Key)
        requires
            old(self).env_picker matches Some(p) && picker_key_ok(p, key),
        ensures
            env_picker_done(*old(self), *final(self), key, old(self).env_picker->0),
    {
        let mut p = match &self.env_picker {
            Some(p) => EnvPickerState { selected: p.selected, count: p.count },
            None => {
                return;
            },
        };
        match key {
            Key::Char('j') | Key::Down => {
                p.next();
                self.env_picker = Some(p);
            },
            Key::Char('k') | Key::Up => {
                p.prev();
                self.env_picker = Some(p);
            },
            Key::Enter => {
                self.active_env = p.chosen_env();
                self.env_picker = None;
            },
            Key::Esc => {
                self.env_picker = None;
            },
            _ => {},
        }
    }
}

/// `v` with each of `ks` added in turn unless present.
pub open spec fn with_texts(v: Seq<Seq<char>>, ks: Seq<Seq<char>>) -> Seq<Seq<char>>
    decreases ks.len(),
{
    if ks.len() == 0 {
        v
    } else {
        with_text(with_texts(v, ks.drop_last()), ks.last())
    }
}

/// The names of the servers, in order.
pub open spec fn server_names(servers: Seq<ServerEntry>) -> Seq<Seq<char>> {
    servers.map_values(|s: ServerEntry| s.name@)
}

impl App {
    /// Starts loading every server's document: each server is marked as loading, and
    /// one fetch with its name, location and TLS settings is asked for per server, in
    /// the order of the servers.
    pub fn start_fetches(&mut self) -> (acts: Vec<Action>)
        ensures
            acts@.len() == old(self).config.servers@.len(),
            forall|i: int| 0 <= i < acts@.len() ==> #[trigger] acts@[i] == (Action::Fetch {
                name: old(self).config.servers@[i].name,
                url: old(self).config.servers@[i].url,
                tls: old(self).config.servers@[i].tls,
            }),
            texts(final(self).spec_loading@) == with_texts(texts(old(self).spec_loading@), server_names(old(self).config.servers@)),
            *final(self) == (App { spec_loading: final(self).spec_loading, ..*old(self) }),
    {
        let ghost a = *self;
        let mut acts: Vec<Action> = Vec::new();
        let n = self.config.servers.len();
        let mut i: usize = 0;
        while i < n
            invariant
                n == a.config.servers@.len(),
                i <= n,
                *self == (App { spec_loading: self.spec_loading, ..a }),
                acts@.len() == i,
                forall|j: int| 0 <= j < i ==> #[trigger] acts@[j] == (Action::Fetch {
                    name: a.config.servers@[j].name,
                    url: a.config.servers@[j].url,
                    tls: a.config.servers@[j].tls,
                }),
                texts(self.spec_loading@) == with_texts(texts(a.spec_loading@), server_names(a.config.servers@).take(i as int)),
            decreases n - i,
        {
            let name = self.config.servers[i].name.clone();
            let url = self.config.servers[i].url.clone();
            let tls = clone_tls(&self.config.servers[i].tls);
            add_text(&mut self.spec_loading, name.clone());
            acts.push(Action::Fetch { name, url, tls });
            assert(server_names(a.config.servers@).take(i + 1).drop_last() =~= server_names(a.config.servers@).take(i as int));
            i = i + 1;
        }
        assert(server_names(a.config.servers@).take(n as int) =~= server_names(a.config.servers@));
        acts
    }
}

/// Whether `key` with exactly Ctrl held asks to quit (Ctrl-C, Ctrl-Q).
pub open spec fn quit_combo(key: Key, ctrl: bool) -> bool {
    ctrl && (key == Key::Char('c') || key == Key::Char('q'))
}

/// Whether a key can be handled in the state `a` without overflow or a bad index.
pub open spec fn key_ok(a: App, key: Key, ctrl: bool) -> bool {
    quit_combo(key, ctrl) || (a.error is Some && key != Key::Null) || match a.env_picker {
        Some(p) => picker_key_ok(p, key),
        None => (key == Key::Char('E') ==> picker_can_open(a)) && match a.screen {
            Screen::ServerList => server_list_key_ok(a, key),
            Screen::EndpointList => endpoint_list_key_ok(a, key),
            Screen::RequestBuilder => request_builder_key_ok(a, key),
            _ => true,
        },
    }
}

/// What a key does: Ctrl-C and Ctrl-Q quit; with an error shown, any key but the null
/// key dismisses it; with the environment selector open, it reacts; otherwise the
/// screen shown reacts.
pub open spec fn key_done(a: App, b: App, key: Key, ctrl: bool, acts: Seq<Action>) -> bool {
    if quit_combo(key, ctrl) {
        b == App { should_quit: true, ..a } && acts.len() == 0
    } else if a.error is Some && key != Key::Null {
        b == App { error: None, ..a } && acts.len() == 0
    } else if a.env_picker is Some {
        env_picker_done(a, b, key, a.env_picker->0) && acts.len() == 0
    } else {
        match a.screen {
            Screen::ServerList => server_list_done(a, b, key, acts),
            Screen::AddServer => add_server_done(a, b, key, acts),
            Screen::EndpointList => endpoint_list_done(a, b, key) && acts.len() == 0,
            Screen::RequestBuilder => request_builder_done(a, b, key, acts),
            Screen::ResponseViewer => response_viewer_done(a, b, key, acts),
        }
    }
}

impl App {
    /// Whether [`App::handle_key`] can take `key` now (see [`key_ok`]); a key it cannot
    /// take would index past the end of a list or text.
    pub fn can_handle(&self, key: Key, ctrl: bool) -> (b: bool)
        ensures
            b == key_ok(*self, key, ctrl),
    {
        if ctrl && (key == Key::Char('c') || key == Key::Char('q')) {
            return true;
        }
        if self.error.is_some() && key != Key::Null {
            return true;
        }
        match &self.env_picker {
            Some(p) => {
                return !((key == Key::Char('j') || key == Key::Down) && p.count > 0) || p.selected < usize::MAX;
            },
            None => {},
        }
        if key == Key::Char('E') && !self.picker_can_open_exec() {
            return false;
        }
        match self.screen {
            Screen::ServerList => {
                let n = self.config.servers.len();
                let sel = self.server_list.selected;
                if n == 0 {
                    return true;
                }
                match key {
                    Key::Char('j') | Key::Down => sel < usize::MAX,
                    Key::PageDown => {
                        let page: usize = if self.server_list.page_size > 1 { self.server_list.page_size as usize } else { 1 };
                        sel <= usize::MAX - page
                    },
                    Key::Char('d') | Key::Char('r') | Key::Enter => sel < n,
                    _ => true,
                }
            },
            Screen::EndpointList => {
                let el = &self.endpoint_list;
                if el.show_curl || el.detail_focused || el.filter_active {
                    return true;
                }
                match key {
                    Key::Char('j') | Key::Down => el.shown_count() == 0 || el.selected < usize::MAX,
                    Key::PageDown => {
                        let page: usize = if el.page_size > 1 { el.page_size as usize } else { 1 };
                        el.shown_count() == 0 || el.selected <= usize::MAX - page
                    },
                    _ => true,
                }
            },
            Screen::RequestBuilder => {
                let rb = &self.request_builder;
                let body_len = rb.body_chars().len();
                let in_body = rb.cursor <= body_len;
                match rb.focus {
                    FocusedPane::ParamsNav => match key {
                        Key::Char('j') | Key::Down => rb.param_count() == 0 || rb.selected < usize::MAX,
                        _ => true,
                    },
                    FocusedPane::ParamsEdit => match key {
                        Key::Backspace => {
                            if rb.selected < rb.rows.len() && rb.cursor > 0 {
                                rb.cursor <= chars_of(rb.rows[rb.selected].value.as_str()).len()
                            } else {
                                true
                            }
                        },
                        Key::Char(_) => rb.selected >= rb.rows.len() || rb.cursor < usize::MAX,
                        _ => true,
                    },
                    FocusedPane::BodyNormal => match (rb.pending_key, key) {
                        (Some('d'), Key::Char('d')) => !rb.has_body() || in_body,
                        (Some(_), _) => true,
                        (None, Key::Char('k')) | (None, Key::Up) | (None, Key::Char('j')) | (None, Key::Down)
                        | (None, Key::Char('0')) | (None, Key::Char('$')) | (None, Key::Char('I'))
                        | (None, Key::Char('A')) => in_body,
                        _ => true,
                    },
                    FocusedPane::BodyInsert => match key {
                        Key::Backspace => !(rb.has_body() && rb.cursor > 0) || in_body,
                        Key::Enter | Key::Char(_) => !rb.has_body() || rb.cursor < usize::MAX,
                        _ => true,
                    },
                }
            },
            _ => true,
        }
    }

    /// Reacts to a key (see [`key_done`]); `ctrl` tells whether exactly the Ctrl
    /// modifier is held. Returns the work for the host to do, in order.
    pub fn handle_key(&mut self, key: Key, ctrl: bool) -> (acts: Vec<Action>)
        requires
            key_ok(*old(self), key, ctrl),
        ensures
            key_done(*old(self), *final(self), key, ctrl, acts@),
    {
        if ctrl && (key == Key::Char('c') || key == Key::Char('q')) {
            self.should_quit = true;
            return Vec::new();
        }
        if self.error.is_some() && key != Key::Null {
            self.error = None;
            return Vec::new();
        }
        if self.env_picker.is_some() {
            self.handle_env_picker(key);
            return Vec::new();
        }
        match self.screen {
            Screen::ServerList => self.handle_server_list(key),
            Screen::AddServer => self.handle_add_server(key),
            Screen::EndpointList => {
                self.handle_endpoint_list(key);
                Vec::new()
            },
            Screen::RequestBuilder => self.handle_request_builder(key),
            Screen::ResponseViewer => self.handle_response_viewer(key),
        }
    }
}

} // verus!
