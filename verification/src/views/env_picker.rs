//! State of the environment selector.

use vstd::prelude::*;

verus! {

pub struct EnvPickerState {
    /// Position in the list, where 0 is "no environment" and `i + 1` is environment `i`.
    pub selected: usize,
    /// Number of entries, the "no environment" entry included.
    pub count: usize,
}

impl Default for EnvPickerState {
    fn default() -> (s: Self)
        ensures
            s.selected == 0,
            s.count == 1,
    {
        EnvPickerState { selected: 0, count: 1 }
    }
}

/// The selector over `env_count` environments with `active` selected.
pub open spec fn picker_for(env_count: usize, active: Option<usize>) -> EnvPickerState {
    EnvPickerState {
        selected: match active {
            Some(i) => (i + 1) as usize,
            None => 0,
        },
        count: (env_count + 1) as usize,
    }
}

/// The environment a selector has chosen: `None` for its first entry, else the index.
pub open spec fn chosen(s: EnvPickerState) -> Option<usize> {
    if s.selected == 0 {
        None
    } else {
        Some((s.selected - 1) as usize)
    }
}

impl EnvPickerState {
    /// The selector over `env_count` environments with `active_env` selected.
    pub fn new(env_count: usize, active_env: Option<usize>) -> (s: Self)
        requires
            env_count < usize::MAX,
            active_env matches Some(i) ==> i < usize::MAX,
        ensures
            s == picker_for(env_count, active_env),
    {
        EnvPickerState {
            selected: match active_env {
                Some(i) => i + 1,
                None => 0,
            },
            count: env_count + 1,
        }
    }

    /// Moves down one entry, stopping at the last.
    pub fn next(&mut self)
        requires
            old(self).count > 0 ==> old(self).selected < usize::MAX,
        ensures
            final(self).count == old(self).count,
            final(self).selected == if old(self).count > 0 {
                if old(self).selected + 1 < old(self).count - 1 {
                    old(self).selected + 1
                } else {
                    old(self).count - 1
                }
            } else {
                old(self).selected as int
            },
    {
        if self.count > 0 {
            let s = self.selected + 1;
            self.selected = if s < self.count - 1 { s } else { self.count - 1 };
        }
    }

    /// Moves up one entry, stopping at the first.
    pub fn prev(&mut self)
        ensures
            final(self).count == old(self).count,
            final(self).selected == if old(self).selected > 0 {
                old(self).selected - 1
            } else {
                0
            },
    {
        if self.selected > 0 {
            self.selected = self.selected - 1;
        }
    }

    /// The environment chosen: `None` for the first entry, else its index.
    pub fn chosen_env(&self) -> (r: Option<usize>)
        ensures
            r == chosen(*self),
    {
        if self.selected == 0 {
            None
        } else {
            Some(self.selected - 1)
        }
    }
}

} // verus!
