//! State of the request history list.

use vstd::prelude::*;
use crate::config::HistoryEntry;
use crate::text::{chars_of, contains, contains_exec, lowercase, to_lower};
use crate::views::endpoint_list::{page_of, step_down, step_up};

verus! {

pub struct HistoryState {
    pub entries: Vec<HistoryEntry>,
    /// Position of the selection in the filtered list.
    pub selected: usize,
    /// Height of the visible list, as last drawn.
    pub page_size: u16,
    pub filter: String,
    pub filter_active: bool,
}

/// Whether an entry passes the lower-cased query `q`: an empty query passes everything;
/// otherwise the path, method or server name, lower-cased, contains it.
pub open spec fn entry_matches(e: HistoryEntry, q: Seq<char>) -> bool {
    ||| q.len() == 0
    ||| contains(lowercase(e.path@), q)
    ||| contains(lowercase(e.method@), q)
    ||| contains(lowercase(e.server_name@), q)
}

/// Indices of the entries that pass `q`, most recent (last) first.
pub open spec fn recent_matching(es: Seq<HistoryEntry>, q: Seq<char>) -> Seq<int>
    decreases es.len(),
{
    if es.len() == 0 {
        Seq::empty()
    } else {
        (if entry_matches(es.last(), q) {
            seq![es.len() - 1]
        } else {
            Seq::empty()
        }) + recent_matching(es.drop_last(), q)
    }
}

impl HistoryState {
    pub open spec fn shown(&self) -> Seq<int> {
        recent_matching(self.entries@, lowercase(self.filter@))
    }
}

fn lower_contains(s: &String, q: &Vec<char>) -> (b: bool)
    ensures
        b == contains(lowercase(s@), q@),
{
    let t = chars_of(to_lower(s.as_str()).as_str());
    contains_exec(&t, q)
}

impl Default for HistoryState {
    fn default() -> (s: Self)
        ensures
            s.entries@.len() == 0,
            s.selected == 0,
            s.page_size == 10,
            s.filter@.len() == 0,
            !s.filter_active,
    {
        HistoryState::new(Vec::new())
    }
}

impl HistoryState {
    /// The history list over `entries`, unfiltered, first row selected.
    pub fn new(entries: Vec<HistoryEntry>) -> (s: Self)
        ensures
            s.entries == entries,
            s.selected == 0,
            s.page_size == 10,
            s.filter@.len() == 0,
            !s.filter_active,
    {
        HistoryState { entries, selected: 0, page_size: 10, filter: String::new(), filter_active: false }
    }

    /// Positions, in `entries`, of the entries shown, most recent first.
    pub fn shown_indices(&self) -> (r: Vec<usize>)
        ensures
            r@.map_values(|x: usize| x as int) == self.shown(),
            forall|k: int| 0 <= k < r@.len() ==> #[trigger] r@[k] < self.entries@.len(),
    {
        let q = chars_of(to_lower(self.filter.as_str()).as_str());
        let mut r: Vec<usize> = Vec::new();
        let mut i: usize = self.entries.len();
        let ghost es = self.entries@;
        assert(es.take(es.len() as int) =~= es);
        while i > 0
            invariant
                i <= es.len(),
                es == self.entries@,
                q@ == lowercase(self.filter@),
                r@.map_values(|x: usize| x as int) + recent_matching(es.take(i as int), q@) == self.shown(),
                forall|k: int| 0 <= k < r@.len() ==> #[trigger] r@[k] < es.len(),
            decreases i,
        {
            let ghost before = r@.map_values(|x: usize| x as int);
            let ghost t = es.take(i as int);
            assert(t.drop_last() =~= es.take(i - 1));
            assert(t.last() == es[i - 1]);
            let e = &self.entries[i - 1];
            let m = q.len() == 0 || lower_contains(&e.path, &q) || lower_contains(&e.method, &q)
                || lower_contains(&e.server_name, &q);
            if m {
                r.push(i - 1);
                assert(r@.map_values(|x: usize| x as int) =~= before.push(i - 1));
                assert(recent_matching(t, q@) =~= seq![i - 1] + recent_matching(es.take(i - 1), q@));
                assert(before.push(i - 1) + recent_matching(es.take(i - 1), q@) =~= before + recent_matching(t, q@));
            } else {
                assert(recent_matching(t, q@) =~= recent_matching(es.take(i - 1), q@));
            }
            i = i - 1;
        }
        assert(recent_matching(es.take(0), q@) =~= Seq::<int>::empty());
        assert(r@.map_values(|x: usize| x as int) =~= r@.map_values(|x: usize| x as int) + Seq::<int>::empty());
        r
    }

    /// The entries shown: most recent first, those passing the filter (compared in
    /// lower case against path, method and server name).
    pub fn filtered(&self) -> (r: Vec<&HistoryEntry>)
        ensures
            r@.len() == self.shown().len(),
            forall|k: int| 0 <= k < r@.len() ==> *#[trigger] r@[k] == self.entries@[self.shown()[k]],
    {
        let idx = self.shown_indices();
        let mut r: Vec<&HistoryEntry> = Vec::new();
        let mut i: usize = 0;
        while i < idx.len()
            invariant
                i <= idx@.len(),
                idx@.map_values(|x: usize| x as int) == self.shown(),
                forall|k: int| 0 <= k < idx@.len() ==> #[trigger] idx@[k] < self.entries@.len(),
                r@.len() == i,
                forall|k: int| 0 <= k < i ==> *#[trigger] r@[k] == self.entries@[self.shown()[k]],
            decreases idx@.len() - i,
        {
            assert(idx@.map_values(|x: usize| x as int)[i as int] == idx@[i as int] as int);
            r.push(&self.entries[idx[i]]);
            i = i + 1;
        }
        r
    }

    /// The entry under the selection, if the filtered list reaches that far.
    pub fn selected_entry(&self) -> (r: Option<&HistoryEntry>)
        ensures
            match r {
                Some(e) => self.selected < self.shown().len() && *e == self.entries@[self.shown()[self.selected as int]],
                None => self.selected >= self.shown().len(),
            },
    {
        let idx = self.shown_indices();
        if self.selected < idx.len() {
            assert(idx@.map_values(|x: usize| x as int)[self.selected as int] == idx@[self.selected as int] as int);
            Some(&self.entries[idx[self.selected]])
        } else {
            None
        }
    }

    fn shown_count(&self) -> (n: usize)
        ensures
            n == self.shown().len(),
    {
        let idx = self.shown_indices();
        assert(idx@.map_values(|x: usize| x as int).len() == idx@.len());
        idx.len()
    }

    /// Moves the selection down one, stopping at the last entry shown.
    pub fn next(&mut self)
        requires
            old(self).shown().len() > 0 ==> old(self).selected < usize::MAX,
        ensures
            final(self).selected == if old(self).shown().len() > 0 {
                step_down(old(self).selected as int, 1, old(self).shown().len() as int)
            } else {
                old(self).selected as int
            },
            final(self).entries == old(self).entries,
            final(self).filter == old(self).filter,
            final(self).filter_active == old(self).filter_active,
            final(self).page_size == old(self).page_size,
    {
        let n = self.shown_count();
        if n > 0 {
            let s = self.selected + 1;
            self.selected = if s < n - 1 { s } else { n - 1 };
        }
    }

    /// Moves the selection up one, stopping at the first.
    pub fn prev(&mut self)
        ensures
            final(self).selected == step_up(old(self).selected as int, 1),
            final(self).entries == old(self).entries,
            final(self).filter == old(self).filter,
            final(self).filter_active == old(self).filter_active,
            final(self).page_size == old(self).page_size,
    {
        if self.selected > 0 {
            self.selected = self.selected - 1;
        }
    }

    /// Moves the selection up a page (at least one row), stopping at the first.
    pub fn page_up(&mut self)
        ensures
            final(self).selected == step_up(old(self).selected as int, page_of(old(self).page_size)),
            final(self).entries == old(self).entries,
            final(self).filter == old(self).filter,
            final(self).filter_active == old(self).filter_active,
            final(self).page_size == old(self).page_size,
    {
        let page: usize = if self.page_size > 1 { self.page_size as usize } else { 1 };
        self.selected = if self.selected > page { self.selected - page } else { 0 };
    }

    /// Moves the selection down a page (at least one row), stopping at the last.
    pub fn page_down(&mut self)
        requires
            old(self).shown().len() > 0 ==> old(self).selected + page_of(old(self).page_size) <= usize::MAX,
        ensures
            final(self).selected == if old(self).shown().len() > 0 {
                step_down(old(self).selected as int, page_of(old(self).page_size), old(self).shown().len() as int)
            } else {
                old(self).selected as int
            },
            final(self).entries == old(self).entries,
            final(self).filter == old(self).filter,
            final(self).filter_active == old(self).filter_active,
            final(self).page_size == old(self).page_size,
    {
        let n = self.shown_count();
        let page: usize = if self.page_size > 1 { self.page_size as usize } else { 1 };
        if n > 0 {
            let s = self.selected + page;
            self.selected = if s < n - 1 { s } else { n - 1 };
        }
    }
}

} // verus!
