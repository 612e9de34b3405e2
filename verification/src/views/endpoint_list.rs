//! State of the endpoint list: the filter, the sort order and the selection.

use vstd::prelude::*;
use crate::openapi::Endpoint;
use crate::text::{chars_of, contains, contains_exec, lowercase, to_lower};
use crate::json::{seq_lt, chars_lt};

verus! {

/// How the endpoint list is ordered.
#[derive(PartialEq, Eq, Structural, Clone, Copy, Debug)]
pub enum SortMode {
    /// Document order.
    Unsorted,
    ByMethod,
    ByPath,
}

pub open spec fn sort_label(m: SortMode) -> Seq<char> {
    match m {
        SortMode::Unsorted => seq!['n', 'o', 'n', 'e'],
        SortMode::ByMethod => seq!['m', 'e', 't', 'h', 'o', 'd'],
        SortMode::ByPath => seq!['p', 'a', 't', 'h'],
    }
}

impl SortMode {
    pub open spec fn next_spec(self) -> Self {
        match self {
            SortMode::Unsorted => SortMode::ByMethod,
            SortMode::ByMethod => SortMode::ByPath,
            SortMode::ByPath => SortMode::Unsorted,
        }
    }

    /// The next mode in the cycle none → method → path → none.
    pub fn next(self) -> (r: Self)
        ensures
            r == self.next_spec(),
    {
        match self {
            SortMode::Unsorted => SortMode::ByMethod,
            SortMode::ByMethod => SortMode::ByPath,
            SortMode::ByPath => SortMode::Unsorted,
        }
    }

    /// The word shown for the mode in the list title.
    pub fn label(self) -> (r: &'static str)
        ensures
            r@ == sort_label(self),
    {
        proof {
            reveal_strlit("none");
            reveal_strlit("method");
            reveal_strlit("path");
        }
        match self {
            SortMode::Unsorted => "none",
            SortMode::ByMethod => "method",
            SortMode::ByPath => "path",
        }
    }
}

impl Default for SortMode {
    fn default() -> (r: Self)
        ensures
            r == SortMode::Unsorted,
    {
        SortMode::Unsorted
    }
}

pub struct EndpointListState {
    pub endpoints: Vec<Endpoint>,
    pub server_name: String,
    pub server_base: String,
    /// Position of the selection in the filtered list.
    pub selected: usize,
    pub filter: String,
    /// Whether typed keys go to the filter.
    pub filter_active: bool,
    pub detail_scroll: u16,
    pub detail_focused: bool,
    pub sort_mode: SortMode,
    pub show_curl: bool,
    /// Height of the visible list, as last drawn.
    pub page_size: u16,
}

// ── Filtering and ordering ───────────────────────────────────────────────────

/// Whether some tag, lower-cased, contains `q`.
pub open spec fn tag_matches(tags: Seq<String>, q: Seq<char>) -> bool {
    exists|i: int| 0 <= i < tags.len() && contains(lowercase(#[trigger] tags[i]@), q)
}

/// Whether an endpoint passes the lower-cased query `q`: an empty query passes
/// everything; otherwise the path, method, summary or a tag, lower-cased, contains it.
pub open spec fn endpoint_matches(e: Endpoint, q: Seq<char>) -> bool {
    ||| q.len() == 0
    ||| contains(lowercase(e.path@), q)
    ||| contains(lowercase(e.method@), q)
    ||| contains(lowercase(e.summary@), q)
    ||| tag_matches(e.tags@, q)
}

/// Indices of the endpoints that pass `q`, in document order.
pub open spec fn matching(eps: Seq<Endpoint>, q: Seq<char>) -> Seq<int>
    decreases eps.len(),
{
    if eps.len() == 0 {
        Seq::empty()
    } else {
        matching(eps.drop_last(), q) + if endpoint_matches(eps.last(), q) {
            seq![eps.len() - 1]
        } else {
            Seq::empty()
        }
    }
}

/// The text an endpoint is ordered by.
pub open spec fn sort_key(e: Endpoint, mode: SortMode) -> Seq<char> {
    match mode {
        SortMode::ByPath => e.path@,
        _ => e.method@,
    }
}

/// Number of leading indices of `s` whose key does not order after `k`.
pub open spec fn place(s: Seq<int>, k: Seq<char>, eps: Seq<Endpoint>, mode: SortMode) -> nat
    decreases s.len(),
{
    if s.len() == 0 {
        0
    } else if seq_lt(k, sort_key(eps[s[0]], mode)) {
        0
    } else {
        1 + place(s.drop_first(), k, eps, mode)
    }
}

/// Stable sort of the indices `s` by the key of the endpoint each names: each index
/// in turn goes after every earlier one whose key does not order after its own.
pub open spec fn sorted(s: Seq<int>, eps: Seq<Endpoint>, mode: SortMode) -> Seq<int>
    decreases s.len(),
{
    if s.len() == 0 {
        Seq::empty()
    } else {
        let r = sorted(s.drop_last(), eps, mode);
        r.insert(place(r, sort_key(eps[s.last()], mode), eps, mode) as int, s.last())
    }
}

/// Indices of the endpoints shown, in the order shown.
pub open spec fn shown(eps: Seq<Endpoint>, filter: Seq<char>, mode: SortMode) -> Seq<int> {
    let m = matching(eps, lowercase(filter));
    match mode {
        SortMode::Unsorted => m,
        _ => sorted(m, eps, mode),
    }
}

impl EndpointListState {
    /// Whether the list is as first shown: first row selected, no filter, document
    /// order, detail and curl popup closed.
    pub open spec fn fresh(&self) -> bool {
        &&& self.selected == 0
        &&& self.filter@.len() == 0
        &&& !self.filter_active
        &&& self.detail_scroll == 0
        &&& !self.detail_focused
        &&& self.sort_mode == SortMode::Unsorted
        &&& !self.show_curl
        &&& self.page_size == 10
    }

    pub open spec fn shown(&self) -> Seq<int> {
        shown(self.endpoints@, self.filter@, self.sort_mode)
    }
}

pub proof fn lemma_place_bound(s: Seq<int>, k: Seq<char>, eps: Seq<Endpoint>, mode: SortMode)
    ensures
        place(s, k, eps, mode) <= s.len(),
    decreases s.len(),
{
    if s.len() > 0 {
        lemma_place_bound(s.drop_first(), k, eps, mode);
    }
}

pub proof fn lemma_matching_bounds(eps: Seq<Endpoint>, q: Seq<char>)
    ensures
        forall|k: int| 0 <= k < matching(eps, q).len() ==> 0 <= #[trigger] matching(eps, q)[k] < eps.len(),
    decreases eps.len(),
{
    if eps.len() > 0 {
        lemma_matching_bounds(eps.drop_last(), q);
        let a = matching(eps.drop_last(), q);
        assert forall|k: int| 0 <= k < matching(eps, q).len() implies 0 <= #[trigger] matching(eps, q)[k] < eps.len() by {
            if k < a.len() {
                assert(matching(eps, q)[k] == a[k]);
            }
        }
    }
}

proof fn lemma_matching_all(eps: Seq<Endpoint>, q: Seq<char>)
    requires
        q.len() == 0,
    ensures
        matching(eps, q).len() == eps.len(),
    decreases eps.len(),
{
    if eps.len() > 0 {
        lemma_matching_all(eps.drop_last(), q);
    }
}

pub proof fn lemma_sorted_members(s: Seq<int>, eps: Seq<Endpoint>, mode: SortMode)
    ensures
        sorted(s, eps, mode).len() == s.len(),
        forall|k: int| 0 <= k < s.len() ==> s.contains(#[trigger] sorted(s, eps, mode)[k]),
    decreases s.len(),
{
    if s.len() > 0 {
        let r = sorted(s.drop_last(), eps, mode);
        lemma_sorted_members(s.drop_last(), eps, mode);
        let p = place(r, sort_key(eps[s.last()], mode), eps, mode) as int;
        lemma_place_bound(r, sort_key(eps[s.last()], mode), eps, mode);
        assert forall|k: int| 0 <= k < s.len() implies s.contains(#[trigger] sorted(s, eps, mode)[k]) by {
            let t = sorted(s, eps, mode);
            assert(t == r.insert(p, s.last()));
            if k < p {
                assert(t[k] == r[k]);
                assert(s.drop_last().contains(r[k]));
                let w = choose|w: int| 0 <= w < s.drop_last().len() && s.drop_last()[w] == r[k];
                assert(s[w] == r[k]);
            } else if k == p {
                assert(s[s.len() - 1] == t[k]);
            } else {
                assert(t[k] == r[k - 1]);
                assert(s.drop_last().contains(r[k - 1]));
                let w = choose|w: int| 0 <= w < s.drop_last().len() && s.drop_last()[w] == r[k - 1];
                assert(s[w] == r[k - 1]);
            }
        }
    }
}

/// Every index shown names an endpoint.
pub proof fn lemma_shown_bounds(eps: Seq<Endpoint>, filter: Seq<char>, mode: SortMode)
    ensures
        forall|k: int| 0 <= k < shown(eps, filter, mode).len() ==> 0 <= #[trigger] shown(eps, filter, mode)[k] < eps.len(),
{
    let m = matching(eps, lowercase(filter));
    lemma_matching_bounds(eps, lowercase(filter));
    if mode != SortMode::Unsorted {
        lemma_sorted_members(m, eps, mode);
        assert forall|k: int| 0 <= k < shown(eps, filter, mode).len() implies 0 <= #[trigger] shown(eps, filter, mode)[k] < eps.len() by {
            let x = shown(eps, filter, mode)[k];
            assert(m.contains(x));
            let w = choose|w: int| 0 <= w < m.len() && m[w] == x;
            assert(m[w] == x);
        }
    }
}

/// Whether some tag, lower-cased, contains `q`.
fn tags_match(tags: &Vec<String>, q: &Vec<char>) -> (b: bool)
    ensures
        b == tag_matches(tags@, q@),
{
    let mut i: usize = 0;
    while i < tags.len()
        invariant
            i <= tags@.len(),
            forall|j: int| 0 <= j < i ==> !contains(lowercase(#[trigger] tags@[j]@), q@),
        decreases tags@.len() - i,
    {
        let t = chars_of(to_lower(tags[i].as_str()).as_str());
        if contains_exec(&t, q) {
            return true;
        }
        i = i + 1;
    }
    false
}

fn lower_contains(s: &String, q: &Vec<char>) -> (b: bool)
    ensures
        b == contains(lowercase(s@), q@),
{
    let t = chars_of(to_lower(s.as_str()).as_str());
    contains_exec(&t, q)
}

fn matches_exec(e: &Endpoint, q: &Vec<char>) -> (b: bool)
    ensures
        b == endpoint_matches(*e, q@),
{
    q.len() == 0 || lower_contains(&e.path, q) || lower_contains(&e.method, q) || lower_contains(
        &e.summary,
        q,
    ) || tags_match(&e.tags, q)
}

fn key_chars(e: &Endpoint, mode: SortMode) -> (k: Vec<char>)
    ensures
        k@ == sort_key(*e, mode),
{
    match mode {
        SortMode::ByPath => chars_of(e.path.as_str()),
        _ => chars_of(e.method.as_str()),
    }
}

/// Sorts the indices `idx` as [`sorted`] does.
fn sort_indices(eps: &Vec<Endpoint>, idx: &Vec<usize>, mode: SortMode) -> (r: Vec<usize>)
    requires
        forall|k: int| 0 <= k < idx@.len() ==> #[trigger] idx@[k] < eps@.len(),
    ensures
        r@.map_values(|x: usize| x as int) == sorted(idx@.map_values(|x: usize| x as int), eps@, mode),
        forall|k: int| 0 <= k < r@.len() ==> #[trigger] r@[k] < eps@.len(),
{
    let ghost s = idx@.map_values(|x: usize| x as int);
    let mut r: Vec<usize> = Vec::new();
    let mut i: usize = 0;
    while i < idx.len()
        invariant
            i <= idx@.len(),
            s == idx@.map_values(|x: usize| x as int),
            forall|k: int| 0 <= k < idx@.len() ==> #[trigger] idx@[k] < eps@.len(),
            r@.map_values(|x: usize| x as int) == sorted(s.take(i as int), eps@, mode),
            r@.len() == i,
            forall|j: int| 0 <= j < r@.len() ==> #[trigger] r@[j] < eps@.len(),
        decreases idx@.len() - i,
    {
        let ghost rv = r@.map_values(|x: usize| x as int);
        let x = idx[i];
        let k = key_chars(&eps[x], mode);
        let mut p: usize = 0;
        assert(rv.skip(0) =~= rv);
        while p < r.len() && !chars_lt(&k, &key_chars(&eps[r[p]], mode))
            invariant
                p <= r@.len(),
                rv == r@.map_values(|x: usize| x as int),
                forall|j: int| 0 <= j < r@.len() ==> #[trigger] r@[j] < eps@.len(),
                k@ == sort_key(eps@[x as int], mode),
                place(rv, k@, eps@, mode) == p + place(rv.skip(p as int), k@, eps@, mode),
            decreases r@.len() - p,
        {
            assert(rv.skip(p as int)[0] == rv[p as int]);
            assert(rv.skip(p as int).drop_first() =~= rv.skip(p + 1));
            p = p + 1;
        }
        if p < r.len() {
            assert(rv.skip(p as int)[0] == rv[p as int]);
        }
        assert(place(rv, k@, eps@, mode) == p);
        proof {
            assert(s.take(i + 1).drop_last() =~= s.take(i as int));
            assert(s.take(i + 1).last() == x as int);
        }
        r.insert(p, x);
        assert(r@.map_values(|x: usize| x as int) =~= rv.insert(p as int, x as int));
        i = i + 1;
    }
    assert(s.take(idx@.len() as int) =~= s);
    r
}

/// Indices of the endpoints that pass the lower-cased query `q`, in order.
fn matching_indices(eps: &Vec<Endpoint>, q: &Vec<char>) -> (r: Vec<usize>)
    ensures
        r@.map_values(|x: usize| x as int) == matching(eps@, q@),
        forall|k: int| 0 <= k < r@.len() ==> #[trigger] r@[k] < eps@.len(),
{
    let mut r: Vec<usize> = Vec::new();
    let mut i: usize = 0;
    while i < eps.len()
        invariant
            i <= eps@.len(),
            r@.map_values(|x: usize| x as int) == matching(eps@.take(i as int), q@),
            forall|k: int| 0 <= k < r@.len() ==> #[trigger] r@[k] < i,
        decreases eps@.len() - i,
    {
        let ghost before = r@.map_values(|x: usize| x as int);
        assert(eps@.take(i + 1).drop_last() =~= eps@.take(i as int));
        assert(eps@.take(i + 1).last() == eps@[i as int]);
        if matches_exec(&eps[i], q) {
            r.push(i);
            assert(r@.map_values(|x: usize| x as int) =~= before.push(i as int));
        } else {
            assert(r@.map_values(|x: usize| x as int) =~= before);
        }
        assert(matching(eps@.take(i + 1), q@) =~= r@.map_values(|x: usize| x as int));
        i = i + 1;
    }
    assert(eps@.take(eps@.len() as int) =~= eps@);
    r
}

impl EndpointListState {
    /// The list for a server: its endpoints, nothing filtered, document order, first
    /// row selected.
    pub fn new(endpoints: Vec<Endpoint>, server_name: String, server_base: String) -> (s: Self)
        ensures
            s.endpoints == endpoints,
            s.server_name == server_name,
            s.server_base == server_base,
            s.fresh(),
    {
        EndpointListState {
            endpoints,
            server_name,
            server_base,
            selected: 0,
            filter: String::new(),
            filter_active: false,
            detail_scroll: 0,
            detail_focused: false,
            sort_mode: SortMode::Unsorted,
            show_curl: false,
            page_size: 10,
        }
    }

    /// Positions, in `endpoints`, of the endpoints shown, in the order shown.
    pub fn shown_indices(&self) -> (r: Vec<usize>)
        ensures
            r@.map_values(|x: usize| x as int) == self.shown(),
            forall|k: int| 0 <= k < r@.len() ==> #[trigger] r@[k] < self.endpoints@.len(),
            self.filter@.len() == 0 ==> r@.len() == self.endpoints@.len(),
    {
        let q = chars_of(to_lower(self.filter.as_str()).as_str());
        proof {
            if self.filter@.len() == 0 {
                lemma_matching_all(self.endpoints@, q@);
                lemma_sorted_members(matching(self.endpoints@, q@), self.endpoints@, self.sort_mode);
            }
        }
        let m = matching_indices(&self.endpoints, &q);
        match self.sort_mode {
            SortMode::Unsorted => m,
            _ => {
                sort_indices(&self.endpoints, &m, self.sort_mode)
            },
        }
    }

    /// The endpoints shown: those passing the filter (compared in lower case against
    /// path, method, summary and tags), ordered by the sort mode (stably).
    pub fn filtered(&self) -> (r: Vec<&Endpoint>)
        ensures
            r@.len() == self.shown().len(),
            forall|k: int| 0 <= k < r@.len() ==> *#[trigger] r@[k] == self.endpoints@[self.shown()[k]],
            self.filter@.len() == 0 ==> r@.len() == self.endpoints@.len(),
    {
        let idx = self.shown_indices();
        let mut r: Vec<&Endpoint> = Vec::new();
        let mut i: usize = 0;
        while i < idx.len()
            invariant
                i <= idx@.len(),
                idx@.map_values(|x: usize| x as int) == self.shown(),
                forall|k: int| 0 <= k < idx@.len() ==> #[trigger] idx@[k] < self.endpoints@.len(),
                r@.len() == i,
                forall|k: int| 0 <= k < i ==> *#[trigger] r@[k] == self.endpoints@[self.shown()[k]],
            decreases idx@.len() - i,
        {
            assert(idx@.map_values(|x: usize| x as int)[i as int] == idx@[i as int] as int);
            r.push(&self.endpoints[idx[i]]);
            i = i + 1;
        }
        r
    }

    /// The endpoint under the selection, if the filtered list reaches that far.
    pub fn selected_endpoint(&self) -> (r: Option<&Endpoint>)
        ensures
            match r {
                Some(e) => self.selected < self.shown().len() && *e == self.endpoints@[self.shown()[self.selected as int]],
                None => self.selected >= self.shown().len(),
            },
    {
        let idx = self.shown_indices();
        if self.selected < idx.len() {
            assert(idx@.map_values(|x: usize| x as int)[self.selected as int] == idx@[self.selected as int] as int);
            Some(&self.endpoints[idx[self.selected]])
        } else {
            None
        }
    }

    /// Number of endpoints shown.
    pub fn shown_count(&self) -> (n: usize)
        ensures
            n == self.shown().len(),
    {
        let idx = self.shown_indices();
        assert(idx@.map_values(|x: usize| x as int).len() == idx@.len());
        idx.len()
    }

    /// Moves the selection down one, stopping at the last endpoint shown.
    pub fn next(&mut self)
        requires
            old(self).shown().len() > 0 ==> old(self).selected < usize::MAX,
        ensures
            if old(self).shown().len() > 0 {
                &&& final(self).selected == step_down(old(self).selected as int, 1, old(self).shown().len() as int)
                &&& final(self).detail_scroll == 0
            } else {
                &&& final(self).selected == old(self).selected
                &&& final(self).detail_scroll == old(self).detail_scroll
            },
            final(self).endpoints == old(self).endpoints,
            final(self).filter == old(self).filter,
            final(self).sort_mode == old(self).sort_mode,
            final(self).filter_active == old(self).filter_active,
            final(self).detail_focused == old(self).detail_focused,
            final(self).show_curl == old(self).show_curl,
            final(self).server_name == old(self).server_name,
            final(self).server_base == old(self).server_base,
            final(self).page_size == old(self).page_size,
    {
        let n = self.shown_count();
        if n > 0 {
            let s = self.selected + 1;
            self.selected = if s < n - 1 { s } else { n - 1 };
            self.detail_scroll = 0;
        }
    }

    /// Moves the selection up one, stopping at the first.
    pub fn prev(&mut self)
        ensures
            if old(self).selected > 0 {
                &&& final(self).selected == old(self).selected - 1
                &&& final(self).detail_scroll == 0
            } else {
                &&& final(self).selected == old(self).selected
                &&& final(self).detail_scroll == old(self).detail_scroll
            },
            final(self).endpoints == old(self).endpoints,
            final(self).filter == old(self).filter,
            final(self).sort_mode == old(self).sort_mode,
            final(self).filter_active == old(self).filter_active,
            final(self).detail_focused == old(self).detail_focused,
            final(self).show_curl == old(self).show_curl,
            final(self).server_name == old(self).server_name,
            final(self).server_base == old(self).server_base,
            final(self).page_size == old(self).page_size,
    {
        if self.selected > 0 {
            self.selected = self.selected - 1;
            self.detail_scroll = 0;
        }
    }

    /// Selects the first endpoint.
    pub fn home(&mut self)
        ensures
            final(self).selected == 0,
            final(self).detail_scroll == 0,
            final(self).endpoints == old(self).endpoints,
            final(self).filter == old(self).filter,
            final(self).sort_mode == old(self).sort_mode,
            final(self).filter_active == old(self).filter_active,
            final(self).detail_focused == old(self).detail_focused,
            final(self).show_curl == old(self).show_curl,
            final(self).server_name == old(self).server_name,
            final(self).server_base == old(self).server_base,
            final(self).page_size == old(self).page_size,
    {
        self.selected = 0;
        self.detail_scroll = 0;
    }

    /// Selects the last endpoint shown.
    pub fn end(&mut self)
        ensures
            if old(self).shown().len() > 0 {
                &&& final(self).selected == old(self).shown().len() - 1
                &&& final(self).detail_scroll == 0
            } else {
                &&& final(self).selected == old(self).selected
                &&& final(self).detail_scroll == old(self).detail_scroll
            },
            final(self).endpoints == old(self).endpoints,
            final(self).filter == old(self).filter,
            final(self).sort_mode == old(self).sort_mode,
            final(self).filter_active == old(self).filter_active,
            final(self).detail_focused == old(self).detail_focused,
            final(self).show_curl == old(self).show_curl,
            final(self).server_name == old(self).server_name,
            final(self).server_base == old(self).server_base,
            final(self).page_size == old(self).page_size,
    {
        let n = self.shown_count();
        if n > 0 {
            self.selected = n - 1;
            self.detail_scroll = 0;
        }
    }

    /// Moves the selection up a page (at least one row), stopping at the first.
    pub fn page_up(&mut self)
        ensures
            final(self).selected == step_up(old(self).selected as int, page_of(old(self).page_size)),
            final(self).detail_scroll == 0,
            final(self).endpoints == old(self).endpoints,
            final(self).filter == old(self).filter,
            final(self).sort_mode == old(self).sort_mode,
            final(self).filter_active == old(self).filter_active,
            final(self).detail_focused == old(self).detail_focused,
            final(self).show_curl == old(self).show_curl,
            final(self).server_name == old(self).server_name,
            final(self).server_base == old(self).server_base,
            final(self).page_size == old(self).page_size,
    {
        let page: usize = if self.page_size > 1 { self.page_size as usize } else { 1 };
        self.selected = if self.selected > page { self.selected - page } else { 0 };
        self.detail_scroll = 0;
    }

    /// Moves the selection down a page (at least one row), stopping at the last.
    pub fn page_down(&mut self)
        requires
            old(self).shown().len() > 0 ==> old(self).selected + page_of(old(self).page_size) <= usize::MAX,
        ensures
            if old(self).shown().len() > 0 {
                &&& final(self).selected == step_down(
                    old(self).selected as int,
                    page_of(old(self).page_size),
                    old(self).shown().len() as int,
                )
                &&& final(self).detail_scroll == 0
            } else {
                &&& final(self).selected == old(self).selected
                &&& final(self).detail_scroll == old(self).detail_scroll
            },
            final(self).endpoints == old(self).endpoints,
            final(self).filter == old(self).filter,
            final(self).sort_mode == old(self).sort_mode,
            final(self).filter_active == old(self).filter_active,
            final(self).detail_focused == old(self).detail_focused,
            final(self).show_curl == old(self).show_curl,
            final(self).server_name == old(self).server_name,
            final(self).server_base == old(self).server_base,
            final(self).page_size == old(self).page_size,
    {
        let n = self.shown_count();
        let page: usize = if self.page_size > 1 { self.page_size as usize } else { 1 };
        if n > 0 {
            let s = self.selected + page;
            self.selected = if s < n - 1 { s } else { n - 1 };
            self.detail_scroll = 0;
        }
    }
}

/// Rows moved by a page key: the visible height, at least one.
pub open spec fn page_of(page_size: u16) -> int {
    if page_size > 1 {
        page_size as int
    } else {
        1
    }
}

/// `sel` moved down by `d` in a list of `n > 0` rows, stopping at the last.
pub open spec fn step_down(sel: int, d: int, n: int) -> int {
    if sel + d < n - 1 {
        sel + d
    } else {
        n - 1
    }
}

/// `sel` moved up by `d`, stopping at 0.
pub open spec fn step_up(sel: int, d: int) -> int {
    if sel > d {
        sel - d
    } else {
        0
    }
}

impl Default for EndpointListState {
    fn default() -> (s: Self)
        ensures
            s.endpoints@.len() == 0,
            s.server_name@.len() == 0,
            s.server_base@.len() == 0,
            s.selected == 0,
            s.filter@.len() == 0,
            !s.filter_active,
            s.detail_scroll == 0,
            !s.detail_focused,
            s.sort_mode == SortMode::Unsorted,
            !s.show_curl,
            s.page_size == 10,
    {
        EndpointListState::new(Vec::new(), String::new(), String::new())
    }
}

} // verus!
