//! The cyclic focus state machine: an ordered view over the currently
//! known window set with a current pointer, advanced forward or
//! backward with wraparound, replaced wholesale on re-enumeration, and
//! resynchronizable from an externally observed focused window.

use crate::model::{WindowInfo, WindowRecord};
use vstd::prelude::*;

verus! {

/// The index after a forward cycle step over `n` windows.
pub open spec fn next_index(i: int, n: int) -> int {
    if i + 1 < n {
        i + 1
    } else {
        0
    }
}

/// The index after a backward cycle step over `n` windows.
pub open spec fn prev_index(i: int, n: int) -> int {
    if i == 0 {
        n - 1
    } else {
        i - 1
    }
}

/// The index kept across a window-list replacement: preserved while
/// still in range of the new list, clamped to zero otherwise.
pub open spec fn reinstalled_index(i: int, new_len: int) -> int {
    if 0 <= i < new_len {
        i
    } else {
        0
    }
}

/// The current pointer with the window list it indexes.  When the list
/// is empty the pointer rests at zero; otherwise it is a valid index.
pub struct CycleState {
    windows: Vec<WindowRecord>,
    current_index: usize,
}

impl CycleState {
    /// The known windows, as ghost records.
    pub closed spec fn windows_spec(&self) -> Seq<WindowInfo> {
        self.windows.deep_view()
    }

    /// The current pointer.
    pub closed spec fn index_spec(&self) -> int {
        self.current_index as int
    }

    /// State invariant: an empty list pins the pointer at zero, a
    /// non-empty list keeps it in range.
    pub closed spec fn inv(&self) -> bool {
        if self.windows_spec().len() == 0 {
            self.index_spec() == 0
        } else {
            0 <= self.index_spec() < self.windows_spec().len()
        }
    }

    /// A fresh state: no windows, pointer at zero.
    pub fn new() -> (r: Self)
        ensures
            r.windows_spec() == Seq::<WindowInfo>::empty(),
            r.index_spec() == 0,
            r.inv(),
    {
        let r = CycleState { windows: Vec::new(), current_index: 0 };
        proof {
            assert(r.windows_spec() =~= Seq::<WindowInfo>::empty());
        }
        r
    }

    /// Replaces the window list wholesale.  The pointer survives the
    /// swap only while it remains in range of the new list; otherwise —
    /// including on an empty install — it clamps to zero, so the next
    /// non-empty install starts at the first window.
    pub fn update_windows(&mut self, windows: Vec<WindowRecord>)
        ensures
            final(self).windows_spec() == windows.deep_view(),
            final(self).index_spec() == reinstalled_index(
                old(self).index_spec(),
                windows.deep_view().len() as int,
            ),
            final(self).inv(),
    {
        let in_range = self.current_index < windows.len();
        self.windows = windows;
        if !in_range {
            self.current_index = 0;
        }
    }

    /// Advances the pointer to the next window, wrapping at the end,
    /// and reports the window to focus; with no windows it is a no-op
    /// that reports nothing.
    pub fn cycle_forward(&mut self) -> (r: Option<u64>)
        requires
            old(self).inv(),
        ensures
            final(self).windows_spec() == old(self).windows_spec(),
            final(self).inv(),
            old(self).windows_spec().len() == 0 ==> r is None && final(self).index_spec() == old(
                self,
            ).index_spec(),
            old(self).windows_spec().len() > 0 ==> {
                &&& final(self).index_spec() == next_index(
                    old(self).index_spec(),
                    old(self).windows_spec().len() as int,
                )
                &&& r == Some(old(self).windows_spec()[final(self).index_spec()].id)
            },
    {
        if self.windows.len() == 0 {
            return None;
        }
        if self.current_index + 1 < self.windows.len() {
            self.current_index = self.current_index + 1;
        } else {
            self.current_index = 0;
        }
        Some(self.windows[self.current_index].id)
    }

    /// Retreats the pointer to the previous window, wrapping at the
    /// start, and reports the window to focus; with no windows it is a
    /// no-op that reports nothing.
    pub fn cycle_backward(&mut self) -> (r: Option<u64>)
        requires
            old(self).inv(),
        ensures
            final(self).windows_spec() == old(self).windows_spec(),
            final(self).inv(),
            old(self).windows_spec().len() == 0 ==> r is None && final(self).index_spec() == old(
                self,
            ).index_spec(),
            old(self).windows_spec().len() > 0 ==> {
                &&& final(self).index_spec() == prev_index(
                    old(self).index_spec(),
                    old(self).windows_spec().len() as int,
                )
                &&& r == Some(old(self).windows_spec()[final(self).index_spec()].id)
            },
    {
        if self.windows.len() == 0 {
            return None;
        }
        if self.current_index == 0 {
            self.current_index = self.windows.len() - 1;
        } else {
            self.current_index = self.current_index - 1;
        }
        Some(self.windows[self.current_index].id)
    }

    /// The known windows, in enumeration order.
    pub fn get_windows(&self) -> (r: &Vec<WindowRecord>)
        ensures
            r.deep_view() == self.windows_spec(),
    {
        &self.windows
    }

    /// The current pointer.
    pub fn get_current_index(&self) -> (r: usize)
        ensures
            r == self.index_spec(),
    {
        self.current_index
    }

    /// Forces the pointer to the first window whose identifier matches
    /// the externally observed focused window; without a match the
    /// state is unchanged.  No focus request is issued.
    pub fn sync_with_active(&mut self, active_window: u64)
        requires
            old(self).inv(),
        ensures
            final(self).windows_spec() == old(self).windows_spec(),
            final(self).inv(),
            match first_with_id(old(self).windows_spec(), active_window, 0) {
                Some(j) => final(self).index_spec() == j,
                None => final(self).index_spec() == old(self).index_spec(),
            },
    {
        let ghost ws = self.windows_spec();
        let mut i: usize = 0;
        while i < self.windows.len()
            invariant
                i <= ws.len(),
                ws == self.windows_spec(),
                self == old(self),
                first_with_id(ws, active_window, 0) == first_with_id(ws, active_window, i as int),
            decreases ws.len() - i,
        {
            if self.windows[i].id == active_window {
                self.current_index = i;
                return ;
            }
            i += 1;
        }
    }
}

/// Index of the first window at or after `i` bearing the given
/// canonical identifier.
pub open spec fn first_with_id(ws: Seq<WindowInfo>, id: u64, i: int) -> Option<int>
    decreases ws.len() - i when 0 <= i
{
    if i >= ws.len() {
        None
    } else if ws[i].id == id {
        Some(i)
    } else {
        first_with_id(ws, id, i + 1)
    }
}

/// One forward step followed by one backward step returns to the
/// starting index.
pub proof fn lemma_forward_backward_inverse(i: int, n: int)
    requires
        0 <= i < n,
    ensures
        prev_index(next_index(i, n), n) == i,
        next_index(prev_index(i, n), n) == i,
{
}

/// The index after `k` rounds of one forward step followed by one
/// backward step.
pub open spec fn forward_backward_rounds(i: int, n: int, k: nat) -> int
    decreases k,
{
    if k == 0 {
        i
    } else {
        prev_index(next_index(forward_backward_rounds(i, n, (k - 1) as nat), n), n)
    }
}

/// Cycling forward then backward any number of times over a fixed
/// non-empty window list returns to the original index.
pub proof fn lemma_forward_backward_rounds_identity(i: int, n: int, k: nat)
    requires
        0 <= i < n,
    ensures
        forward_backward_rounds(i, n, k) == i,
    decreases k,
{
    if k > 0 {
        lemma_forward_backward_rounds_identity(i, n, (k - 1) as nat);
        lemma_forward_backward_inverse(i, n);
    }
}

/// Installing an empty window list after any state leaves the pointer
/// at zero, and the next non-empty install therefore starts at the
/// first window.
pub proof fn lemma_empty_then_nonempty_reset(i: int, m: nat)
    requires
        m > 0,
    ensures
        reinstalled_index(i, 0) == 0,
        reinstalled_index(reinstalled_index(i, 0), m as int) == 0,
{
}

} // verus!
