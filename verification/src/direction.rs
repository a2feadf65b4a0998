//! The two-ended selector: which end of the shared data store an
//! instruction touches.

use vstd::prelude::*;

verus! {

/// Selects one end of the double-ended data store. `Left` works on the
/// front of the queue, `Right` on the back.
#[derive(Clone, Copy, Debug, PartialEq, Eq, Structural)]
pub enum Direction {
    Left,
    Right,
}

impl Direction {
    /// The opposite end.
    pub open spec fn spec_invert(self) -> Direction {
        match self {
            Direction::Left => Direction::Right,
            Direction::Right => Direction::Left,
        }
    }

    /// Returns the opposite end; used by the `move` opcode.
    pub fn invert(&self) -> (d: Direction)
        ensures
            d == self.spec_invert(),
            d != *self,
    {
        match self {
            Direction::Left => Direction::Right,
            Direction::Right => Direction::Left,
        }
    }
}

/// Inverting twice returns to the original end.
pub proof fn lemma_invert_involution(d: Direction)
    ensures
        d.spec_invert().spec_invert() == d,
{
}

} // verus!
