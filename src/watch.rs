//! Reconciliation of a fresh read of the live log against the line count
//! seen at the previous read.

use vstd::prelude::*;

verus! {

/// What a fresh read of the live log does to the buffer.
#[derive(Clone, Copy, Debug, PartialEq, Eq, Structural)]
pub enum Reconciliation {
    /// The file shrank (truncated or rotated): its lines replace the buffer.
    Replace,
    /// The file grew: its lines after the first `skip` are appended.
    Append { skip: usize },
    /// Same line count as before: the buffer is left as it is.
    Unchanged,
}

/// The decision for a read of `new_count` lines after a read of `last_count`.
pub open spec fn reconcile_spec(last_count: nat, new_count: nat) -> Reconciliation {
    if new_count < last_count {
        Reconciliation::Replace
    } else if new_count > last_count {
        Reconciliation::Append { skip: last_count as usize }
    } else {
        Reconciliation::Unchanged
    }
}

/// The line count of the live log as of the last successful read.
pub struct WatchCursor {
    last_known_line_count: usize,
}

impl View for WatchCursor {
    type V = nat;

    closed spec fn view(&self) -> nat {
        self.last_known_line_count as nat
    }
}

impl WatchCursor {
    /// A cursor that has seen `line_count` lines.
    pub fn new(line_count: usize) -> (r: Self)
        ensures
            r@ == line_count,
    {
        WatchCursor { last_known_line_count: line_count }
    }

    pub fn last_known_line_count(&self) -> (r: usize)
        ensures
            r == self@,
    {
        self.last_known_line_count
    }

    /// Decides what a read of `new_line_count` lines does to the buffer, and
    /// records that count for the next read.
    pub fn reconcile(&mut self, new_line_count: usize) -> (r: Reconciliation)
        ensures
            r == reconcile_spec(old(self)@, new_line_count as nat),
            final(self)@ == new_line_count,
    {
        let last_count = self.last_known_line_count;
        self.last_known_line_count = new_line_count;
        if new_line_count < last_count {
            Reconciliation::Replace
        } else if new_line_count > last_count {
            Reconciliation::Append { skip: last_count }
        } else {
            Reconciliation::Unchanged
        }
    }
}

} // verus!
