//! The user configuration: servers, their TLS settings and default headers, the
//! theme overrides; and the entries of the request history.

use vstd::prelude::*;
use crate::text::chars_of;
use crate::json::chars_eq;

verus! {

/// Theme color overrides. Each field holds a color name (`"cyan"`, `"dark_gray"`), a hex
/// value (`"#1e1e2e"`) or a 256-color index (`"42"`); omitted fields keep the defaults.
pub struct ThemeConfig {
    pub method_get: Option<String>,
    pub method_post: Option<String>,
    pub method_put: Option<String>,
    pub method_delete: Option<String>,
    pub method_patch: Option<String>,
    pub method_other: Option<String>,
    pub status_2xx: Option<String>,
    pub status_3xx: Option<String>,
    pub status_4xx: Option<String>,
    pub status_5xx: Option<String>,
    pub status_other: Option<String>,
    pub title: Option<String>,
    pub selected_bg: Option<String>,
    pub border_focused: Option<String>,
    pub border_unfocused: Option<String>,
    pub border_active: Option<String>,
    pub border_editing: Option<String>,
    pub text_primary: Option<String>,
    pub text_secondary: Option<String>,
    pub text_url: Option<String>,
    pub text_key: Option<String>,
    pub text_tag: Option<String>,
    pub text_accent: Option<String>,
    pub indicator_loading: Option<String>,
    pub indicator_success: Option<String>,
    pub indicator_error: Option<String>,
    pub help_key: Option<String>,
    pub help_desc: Option<String>,
    pub error: Option<String>,
    pub json_string: Option<String>,
    pub json_number: Option<String>,
    pub json_bool: Option<String>,
    pub json_null: Option<String>,
    pub md_h1: Option<String>,
    pub md_h2: Option<String>,
    pub md_code: Option<String>,
    pub md_quote: Option<String>,
    pub param_required: Option<String>,
    pub param_location: Option<String>,
    pub param_type: Option<String>,
    pub param_example: Option<String>,
    pub cursor_block_fg: Option<String>,
    pub cursor_block_bg: Option<String>,
    pub cursor_bar: Option<String>,
    pub filter_active: Option<String>,
    pub filter_inactive: Option<String>,
}

pub struct Config {
    pub servers: Vec<ServerEntry>,
    pub theme: ThemeConfig,
    /// Named sets of variables; the active one is filled into requests.
    pub environments: Vec<Environment>,
}

/// A named set of variables, referred to as `{{name}}` in parameter values, headers
/// and URLs.
pub struct Environment {
    pub name: String,
    /// Name/value pairs, in the order they are filled in.
    pub variables: Vec<(String, String)>,
}

pub struct ServerEntry {
    pub name: String,
    /// Where the OpenAPI document is fetched from.
    pub url: String,
    pub description: String,
    /// Headers sent with every request to this server, each name once.
    pub default_headers: Vec<(String, String)>,
    pub tls: TlsConfig,
}

/// Mutual-TLS and custom-CA settings of a server (paths of PEM files).
pub struct TlsConfig {
    pub client_cert: Option<String>,
    pub client_key: Option<String>,
    pub ca_cert: Option<String>,
}

/// One request of the history.
pub struct HistoryEntry {
    pub method: String,
    pub path: String,
    pub server_name: String,
    pub url: String,
    pub status: u16,
    pub elapsed_ms: u128,
    pub timestamp: String,
    /// Parameter values sent, by name.
    pub params: Vec<(String, String)>,
}

/// The servers not named `name`, in their order.
pub open spec fn without_name(servers: Seq<ServerEntry>, name: Seq<char>) -> Seq<ServerEntry>
    decreases servers.len(),
{
    if servers.len() == 0 {
        Seq::empty()
    } else {
        without_name(servers.drop_last(), name) + if servers.last().name@ == name {
            Seq::empty()
        } else {
            seq![servers.last()]
        }
    }
}

fn remove_named(servers: &mut Vec<ServerEntry>, name: &str)
    ensures
        final(servers)@ == without_name(old(servers)@, name@),
{
    let key = chars_of(name);
    let ghost orig = servers@;
    let ghost mut j: int = 0;
    let mut i: usize = 0;
    assert(orig.take(0) =~= Seq::<ServerEntry>::empty());
    assert(servers@.skip(0) =~= orig.skip(0));
    while i < servers.len()
        invariant
            key@ == name@,
            0 <= i <= servers@.len(),
            0 <= j <= orig.len(),
            servers@.take(i as int) == without_name(orig.take(j), name@),
            servers@.skip(i as int) == orig.skip(j),
        decreases servers@.len() - i,
    {
        let k = chars_of(servers[i].name.as_str());
        let ghost cur = servers@[i as int];
        assert(servers@.skip(i as int).len() > 0);
        assert(j < orig.len());
        assert(servers@.skip(i as int)[0] == cur);
        assert(orig.skip(j)[0] == cur);
        assert(orig.take(j + 1).drop_last() =~= orig.take(j));
        assert(orig.take(j + 1).last() == cur);
        if chars_eq(&k, &key) {
            let ghost before = servers@;
            servers.remove(i);
            assert(servers@.take(i as int) =~= before.take(i as int));
            assert(servers@.skip(i as int) =~= before.skip(i + 1));
            assert(before.skip(i + 1) =~= orig.skip(j).drop_first());
            assert(orig.skip(j).drop_first() =~= orig.skip(j + 1));
        } else {
            assert(servers@.take(i + 1) =~= servers@.take(i as int).push(cur));
            assert(servers@.skip(i + 1) =~= servers@.skip(i as int).drop_first());
            assert(orig.skip(j).drop_first() =~= orig.skip(j + 1));
            i = i + 1;
        }
        proof {
            j = j + 1;
        }
    }
    assert(orig.skip(j).len() == 0);
    assert(orig.take(j) =~= orig);
    assert(servers@.take(i as int) =~= servers@);
}

impl Config {
    /// Adds `entry`, replacing any server of the same name; the new entry comes last.
    pub fn add_server(&mut self, entry: ServerEntry)
        ensures
            final(self).servers@ == without_name(old(self).servers@, entry.name@).push(entry),
            final(self).theme == old(self).theme,
    {
        remove_named(&mut self.servers, entry.name.as_str());
        self.servers.push(entry);
    }

    /// Removes every server named `name`, keeping the others in order.
    pub fn remove_server(&mut self, name: &str)
        ensures
            final(self).servers@ == without_name(old(self).servers@, name@),
            final(self).theme == old(self).theme,
    {
        remove_named(&mut self.servers, name);
    }
}

impl Default for ThemeConfig {
    fn default() -> (t: Self)
        ensures
            t == crate::theme::blank_theme_config(),
    {
        ThemeConfig {
            method_get: None,
            method_post: None,
            method_put: None,
            method_delete: None,
            method_patch: None,
            method_other: None,
            status_2xx: None,
            status_3xx: None,
            status_4xx: None,
            status_5xx: None,
            status_other: None,
            title: None,
            selected_bg: None,
            border_focused: None,
            border_unfocused: None,
            border_active: None,
            border_editing: None,
            text_primary: None,
            text_secondary: None,
            text_url: None,
            text_key: None,
            text_tag: None,
            text_accent: None,
            indicator_loading: None,
            indicator_success: None,
            indicator_error: None,
            help_key: None,
            help_desc: None,
            error: None,
            json_string: None,
            json_number: None,
            json_bool: None,
            json_null: None,
            md_h1: None,
            md_h2: None,
            md_code: None,
            md_quote: None,
            param_required: None,
            param_location: None,
            param_type: None,
            param_example: None,
            cursor_block_fg: None,
            cursor_block_bg: None,
            cursor_bar: None,
            filter_active: None,
            filter_inactive: None,
        }
    }
}

impl Default for TlsConfig {
    fn default() -> (t: Self)
        ensures
            t.client_cert is None && t.client_key is None && t.ca_cert is None,
    {
        TlsConfig { client_cert: None, client_key: None, ca_cert: None }
    }
}

impl Default for Config {
    fn default() -> (c: Self)
        ensures
            c.servers@.len() == 0,
            c.theme == crate::theme::blank_theme_config(),
            c.environments@.len() == 0,
    {
        Config { servers: Vec::new(), theme: ThemeConfig::default(), environments: Vec::new() }
    }
}

} // verus!
