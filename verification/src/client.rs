//! Request definitions and received responses.

use vstd::prelude::*;
use crate::json::{JsonValue, chars_eq};
use crate::text::{
    chars_of, string_of, replace_all, replace_all_exec, trim_end_char, trim_start_char,
    trim_end_char_of, trim_start_char_of,
};

verus! {

/// A request ready to be sent.
pub struct RequestDef {
    pub method: String,
    pub base_url: String,
    /// The path with `{name}` placeholders.
    pub path_template: String,
    /// Name/value pairs, each name once.
    pub path_params: Vec<(String, String)>,
    pub query_params: Vec<(String, String)>,
    pub headers: Vec<(String, String)>,
    /// The JSON text of the body; present only when it is well-formed JSON.
    pub body: Option<String>,
}

/// A received response.
pub struct ResponseResult {
    pub status: u16,
    pub headers: Vec<(String, String)>,
    pub body: String,
    /// The body read as JSON, when it is well-formed JSON.
    pub body_json: Option<JsonValue>,
    pub elapsed_ms: u128,
}

pub open spec fn pairs_view(v: Seq<(String, String)>) -> Seq<(Seq<char>, Seq<char>)> {
    v.map_values(|p: (String, String)| (p.0@, p.1@))
}

/// The placeholder `{k}`.
pub open spec fn placeholder(k: Seq<char>) -> Seq<char> {
    seq!['{'] + k + seq!['}']
}

/// The path template with each parameter's placeholder replaced by its value, the
/// parameters taken in order.
pub open spec fn substitute(path: Seq<char>, params: Seq<(Seq<char>, Seq<char>)>) -> Seq<char>
    decreases params.len(),
{
    if params.len() == 0 {
        path
    } else {
        replace_all(substitute(path, params.drop_last()), placeholder(params.last().0), params.last().1)
    }
}

/// The base URL without trailing `/`, a `/`, and the substituted path without leading `/`.
pub open spec fn url_of(base: Seq<char>, template: Seq<char>, params: Seq<(Seq<char>, Seq<char>)>) -> Seq<char> {
    trim_end_char(base, '/') + seq!['/'] + trim_start_char(substitute(template, params), '/')
}

fn placeholder_of(k: &String) -> (r: Vec<char>)
    ensures
        r@ == placeholder(k@),
{
    let kc = chars_of(k.as_str());
    let mut r: Vec<char> = Vec::new();
    r.push('{');
    let mut i: usize = 0;
    while i < kc.len()
        invariant
            i <= kc@.len(),
            r@ == seq!['{'] + kc@.take(i as int),
        decreases kc@.len() - i,
    {
        r.push(kc[i]);
        assert(kc@.take(i + 1) =~= kc@.take(i as int).push(kc@[i as int]));
        i = i + 1;
    }
    r.push('}');
    assert(kc@.take(kc@.len() as int) =~= kc@);
    assert(r@ =~= placeholder(k@));
    r
}

impl RequestDef {
    /// The URL: `{param}` placeholders of the path replaced by their values, joined to
    /// the base URL with exactly one `/`.
    pub fn resolved_url(&self) -> (r: String)
        ensures
            r@ == url_of(self.base_url@, self.path_template@, pairs_view(self.path_params@)),
    {
        let ghost pv = pairs_view(self.path_params@);
        let mut path = chars_of(self.path_template.as_str());
        let mut i: usize = 0;
        while i < self.path_params.len()
            invariant
                i <= self.path_params@.len(),
                pv == pairs_view(self.path_params@),
                path@ == substitute(self.path_template@, pv.take(i as int)),
            decreases self.path_params@.len() - i,
        {
            let pat = placeholder_of(&self.path_params[i].0);
            let rep = chars_of(self.path_params[i].1.as_str());
            path = replace_all_exec(&path, &pat, &rep);
            assert(pv.take(i + 1).drop_last() =~= pv.take(i as int));
            i = i + 1;
        }
        assert(pv.take(pv.len() as int) =~= pv);
        let base = chars_of(self.base_url.as_str());
        let base = trim_end_char_of(&base, '/');
        let path = trim_start_char_of(&path, '/');
        let mut out = base;
        out.push('/');
        let mut k: usize = 0;
        let ghost start = out@;
        while k < path.len()
            invariant
                k <= path@.len(),
                out@ == start + path@.take(k as int),
            decreases path@.len() - k,
        {
            out.push(path[k]);
            assert(path@.take(k + 1) =~= path@.take(k as int).push(path@[k as int]));
            k = k + 1;
        }
        assert(path@.take(path@.len() as int) =~= path@);
        string_of(out.as_slice())
    }
}

// ── Name/value lists ─────────────────────────────────────────────────────────

/// The index of the first pair named `k`.
pub open spec fn find_key(m: Seq<(Seq<char>, Seq<char>)>, k: Seq<char>) -> Option<int>
    decreases m.len(),
{
    if m.len() == 0 {
        None
    } else if m[0].0 == k {
        Some(0)
    } else {
        match find_key(m.drop_first(), k) {
            Some(i) => Some(i + 1),
            None => None,
        }
    }
}

/// The list after setting `k` to `v` (what `HashMap::insert` does to the map).
pub open spec fn pair_insert(m: Seq<(Seq<char>, Seq<char>)>, k: Seq<char>, v: Seq<char>) -> Seq<(Seq<char>, Seq<char>)> {
    match find_key(m, k) {
        Some(i) => m.update(i, (k, v)),
        None => m.push((k, v)),
    }
}

proof fn lemma_find_key_skip(m: Seq<(Seq<char>, Seq<char>)>, k: Seq<char>, i: int)
    requires
        0 <= i < m.len(),
        m[i].0 != k,
        find_key(m, k) == (match find_key(m.skip(i), k) {
            Some(x) => Some(x + i),
            None => None,
        }),
    ensures
        find_key(m, k) == (match find_key(m.skip(i + 1), k) {
            Some(x) => Some(x + i + 1),
            None => None,
        }),
{
    assert(m.skip(i)[0] == m[i]);
    assert(m.skip(i).drop_first() =~= m.skip(i + 1));
}

pub proof fn lemma_find_key_bound(m: Seq<(Seq<char>, Seq<char>)>, k: Seq<char>)
    ensures
        find_key(m, k) matches Some(i) ==> 0 <= i < m.len() && m[i].0 == k,
    decreases m.len(),
{
    if m.len() > 0 {
        lemma_find_key_bound(m.drop_first(), k);
    }
}

/// Sets `k` to `v` in a name/value list (see [`pair_insert`]).
pub fn insert_pair(m: &mut Vec<(String, String)>, k: String, v: String)
    ensures
        pairs_view(final(m)@) == pair_insert(pairs_view(old(m)@), k@, v@),
{
    let ghost mv = pairs_view(m@);
    let kc = chars_of(k.as_str());
    let mut i: usize = 0;
    assert(mv.skip(0) =~= mv);
    while i < m.len()
        invariant
            mv == pairs_view(m@),
            m@ == old(m)@,
            kc@ == k@,
            i <= m@.len(),
            forall|q: int| 0 <= q < i ==> m@[q].0@ != k@,
            find_key(mv, k@) == (match find_key(mv.skip(i as int), k@) {
                Some(x) => Some(x + i),
                None => None,
            }),
        decreases m@.len() - i,
    {
        let key = chars_of(m[i].0.as_str());
        if chars_eq(&key, &kc) {
            assert(mv.skip(i as int)[0] == mv[i as int]);
            assert(mv[i as int].0 == k@);
            assert(find_key(mv.skip(i as int), k@) == Some(0int));
            m.set(i, (k, v));
            assert(find_key(mv, k@) == Some(i as int));
            assert(pairs_view(m@) =~= mv.update(i as int, (k@, v@)));
            assert(pairs_view(m@) == pair_insert(mv, k@, v@));
            return;
        }
        proof {
            lemma_find_key_skip(mv, k@, i as int);
        }
        i = i + 1;
    }
    assert(mv.skip(i as int).len() == 0);
    m.push((k, v));
    assert(pairs_view(m@) =~= mv.push((k@, v@)));
}

// ── Environment variables ───────────────────────────────────────────────────

/// The reference `{{k}}` to variable `k`.
pub open spec fn var_ref(k: Seq<char>) -> Seq<char> {
    seq!['{', '{'] + k + seq!['}', '}']
}

/// `t` with every reference to each variable replaced by its value, the variables
/// taken in order.
pub open spec fn fill_vars(t: Seq<char>, vars: Seq<(Seq<char>, Seq<char>)>) -> Seq<char>
    decreases vars.len(),
{
    if vars.len() == 0 {
        t
    } else {
        replace_all(fill_vars(t, vars.drop_last()), var_ref(vars.last().0), vars.last().1)
    }
}

/// The name/value list with the variables filled into each value.
pub open spec fn fill_pairs(ps: Seq<(Seq<char>, Seq<char>)>, vars: Seq<(Seq<char>, Seq<char>)>) -> Seq<(Seq<char>, Seq<char>)> {
    ps.map_values(|p: (Seq<char>, Seq<char>)| (p.0, fill_vars(p.1, vars)))
}

/// Whether `r` is `r0` with the variables filled into its base URL and the values of
/// its path parameters, query parameters and headers (method, path and body kept).
pub open spec fn filled_from(r: RequestDef, r0: RequestDef, vars: Seq<(Seq<char>, Seq<char>)>) -> bool {
    &&& r.method@ == r0.method@
    &&& r.base_url@ == fill_vars(r0.base_url@, vars)
    &&& r.path_template@ == r0.path_template@
    &&& pairs_view(r.path_params@) == fill_pairs(pairs_view(r0.path_params@), vars)
    &&& pairs_view(r.query_params@) == fill_pairs(pairs_view(r0.query_params@), vars)
    &&& pairs_view(r.headers@) == fill_pairs(pairs_view(r0.headers@), vars)
    &&& match (r.body, r0.body) {
        (Some(b), Some(b0)) => b@ == b0@,
        (None, None) => true,
        _ => false,
    }
}

fn var_ref_of(k: &String) -> (r: Vec<char>)
    ensures
        r@ == var_ref(k@),
{
    let kc = chars_of(k.as_str());
    let mut r: Vec<char> = Vec::new();
    r.push('{');
    r.push('{');
    let mut i: usize = 0;
    while i < kc.len()
        invariant
            i <= kc@.len(),
            r@ == seq!['{', '{'] + kc@.take(i as int),
        decreases kc@.len() - i,
    {
        r.push(kc[i]);
        assert(kc@.take(i + 1) =~= kc@.take(i as int).push(kc@[i as int]));
        i = i + 1;
    }
    r.push('}');
    r.push('}');
    assert(kc@.take(kc@.len() as int) =~= kc@);
    assert(r@ =~= var_ref(k@));
    r
}

/// Fills the variables into a text (see [`fill_vars`]).
pub fn fill_text(t: &str, vars: &Vec<(String, String)>) -> (r: String)
    ensures
        r@ == fill_vars(t@, pairs_view(vars@)),
{
    let ghost vv = pairs_view(vars@);
    let mut out = chars_of(t);
    let mut i: usize = 0;
    while i < vars.len()
        invariant
            i <= vars@.len(),
            vv == pairs_view(vars@),
            out@ == fill_vars(t@, vv.take(i as int)),
        decreases vars@.len() - i,
    {
        let pat = var_ref_of(&vars[i].0);
        let rep = chars_of(vars[i].1.as_str());
        out = replace_all_exec(&out, &pat, &rep);
        assert(vv.take(i + 1).drop_last() =~= vv.take(i as int));
        i = i + 1;
    }
    assert(vv.take(vv.len() as int) =~= vv);
    string_of(out.as_slice())
}

fn fill_pair_list(ps: &Vec<(String, String)>, vars: &Vec<(String, String)>) -> (r: Vec<(String, String)>)
    ensures
        pairs_view(r@) == fill_pairs(pairs_view(ps@), pairs_view(vars@)),
{
    let mut out: Vec<(String, String)> = Vec::new();
    let mut i: usize = 0;
    while i < ps.len()
        invariant
            i <= ps@.len(),
            pairs_view(out@) == fill_pairs(pairs_view(ps@).take(i as int), pairs_view(vars@)),
        decreases ps@.len() - i,
    {
        let ghost before = out@;
        let k = string_of(chars_of(ps[i].0.as_str()).as_slice());
        let v = fill_text(ps[i].1.as_str(), vars);
        out.push((k, v));
        assert(pairs_view(out@) =~= pairs_view(before).push((ps@[i as int].0@, fill_vars(ps@[i as int].1@, pairs_view(vars@)))));
        assert(pairs_view(ps@)[i as int] == (ps@[i as int].0@, ps@[i as int].1@));
        assert(pairs_view(ps@).take(i + 1) =~= pairs_view(ps@).take(i as int).push(pairs_view(ps@)[i as int]));
        assert(pairs_view(out@) =~= fill_pairs(pairs_view(ps@).take(i + 1), pairs_view(vars@)));
        i = i + 1;
    }
    assert(pairs_view(ps@).take(ps@.len() as int) =~= pairs_view(ps@));
    out
}

impl RequestDef {
    /// The request with the variables filled into its base URL and into the values of
    /// its parameters and headers (see [`filled_from`]).
    pub fn with_vars(&self, vars: &Vec<(String, String)>) -> (r: RequestDef)
        ensures
            filled_from(r, *self, pairs_view(vars@)),
    {
        RequestDef {
            method: string_of(chars_of(self.method.as_str()).as_slice()),
            base_url: fill_text(self.base_url.as_str(), vars),
            path_template: string_of(chars_of(self.path_template.as_str()).as_slice()),
            path_params: fill_pair_list(&self.path_params, vars),
            query_params: fill_pair_list(&self.query_params, vars),
            headers: fill_pair_list(&self.headers, vars),
            body: match &self.body {
                Some(b) => Some(string_of(chars_of(b.as_str()).as_slice())),
                None => None,
            },
        }
    }
}

} // verus!
