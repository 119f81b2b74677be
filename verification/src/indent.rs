//! The nesting-depth counter behind indented trace output.
//!
//! Starting a timer enters one level, ending it leaves one. The counter
//! mirrors a machine word's wrapping read-modify-write: it checks no upper
//! bound, and leaving at depth zero wraps around — a symptom of mismatched
//! start/end pairs that the caller, not this counter, is to rule out.

use vstd::prelude::*;

verus! {

/// The current nesting depth of running timers.
pub struct IndentCounter {
    depth: usize,
}

impl IndentCounter {
    /// The depth the counter currently records.
    pub closed spec fn depth(&self) -> usize {
        self.depth
    }

    /// A counter at depth zero.
    pub fn new() -> (c: IndentCounter)
        ensures
            c.depth() == 0,
    {
        IndentCounter { depth: 0 }
    }

    /// Enters one nesting level and returns the depth before entering, the
    /// one the caller indents its start line by; wraps at the top like the
    /// word-sized atomic it stands for.
    pub fn enter(&mut self) -> (prev: usize)
        ensures
            prev == old(self).depth(),
            final(self).depth() == (if old(self).depth() == usize::MAX {
                0usize
            } else {
                (old(self).depth() + 1) as usize
            }),
    {
        let prev = self.depth;
        self.depth = if self.depth == usize::MAX {
            0
        } else {
            self.depth + 1
        };
        prev
    }

    /// Leaves one nesting level; at depth zero it wraps, which signals a
    /// mismatched start/end pair but is not validated here.
    pub fn exit(&mut self)
        ensures
            final(self).depth() == (if old(self).depth() == 0 {
                usize::MAX
            } else {
                (old(self).depth() - 1) as usize
            }),
    {
        self.depth = if self.depth == 0 {
            usize::MAX
        } else {
            self.depth - 1
        };
    }

    /// The current depth.
    pub fn current(&self) -> (d: usize)
        ensures
            d == self.depth(),
    {
        self.depth
    }
}

} // verus!
