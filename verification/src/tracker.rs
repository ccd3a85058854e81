//! The trailing watermark: the highest stop level recommended so far.

use vstd::prelude::*;
use crate::level::Level;

verus! {

/// The larger of two integers.
pub open spec fn higher(a: int, b: int) -> int {
    if a >= b {
        a
    } else {
        b
    }
}

/// A cell that holds the watermark of one session.
///
/// It can be read and raised; nothing lowers it. Raising takes the cell by
/// exclusive reference, so the read, the comparison and the write of one
/// raise are never interleaved with another access.
#[derive(Debug, PartialEq, Eq)]
pub struct TrailingStopTracker {
    watermark: Level,
}

impl View for TrailingStopTracker {
    type V = int;

    /// The watermark, in level atoms.
    closed spec fn view(&self) -> int {
        self.watermark@
    }
}

impl TrailingStopTracker {
    /// A tracker at level zero, where every session starts.
    pub fn new() -> (t: TrailingStopTracker)
        ensures
            t@ == 0,
    {
        TrailingStopTracker { watermark: Level { atoms: 0 } }
    }

    /// The current watermark.
    pub fn load(&self) -> (l: Level)
        ensures
            l@ == self@,
    {
        self.watermark
    }

    /// Lifts the watermark to `candidate` where that is higher, and returns
    /// the watermark that then holds.
    pub fn raise(&mut self, candidate: Level) -> (now: Level)
        ensures
            final(self)@ == higher(old(self)@, candidate@),
            final(self)@ >= old(self)@,
            now@ == final(self)@,
        no_unwind
    {
        if candidate.atoms > self.watermark.atoms {
            self.watermark = candidate;
        }
        self.watermark
    }
}

} // verus!
