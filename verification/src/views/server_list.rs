//! State of the server list.

use vstd::prelude::*;

verus! {

pub struct ServerListState {
    /// Index of the selected server.
    pub selected: usize,
    /// Height of the visible list, as last drawn.
    pub page_size: u16,
}

impl Default for ServerListState {
    fn default() -> (s: Self)
        ensures
            s.selected == 0,
            s.page_size == 10,
    {
        ServerListState { selected: 0, page_size: 10 }
    }
}

} // verus!
