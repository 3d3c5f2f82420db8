//! The undoable move history: an ordered record of applied placements,
//! append-only except for pop-from-end.

use vstd::prelude::*;

verus! {

/// An applied placement: the coordinate that was occupied. The player is not
/// stored; it is implicit from game order, even-indexed moves belonging to
/// the starting player.
#[derive(Clone, Copy, Debug, PartialEq, Eq, Structural)]
pub struct Move {
    pub row: usize,
    pub col: usize,
}

/// The ordered sequence of applied moves, most recent last.
pub struct MoveHistory {
    moves: Vec<Move>,
}

impl View for MoveHistory {
    type V = Seq<Move>;

    closed spec fn view(&self) -> Seq<Move> {
        self.moves@
    }
}

impl MoveHistory {
    /// A fresh, empty history.
    pub fn new() -> (h: MoveHistory)
        ensures
            h@ == Seq::<Move>::empty(),
    {
        MoveHistory { moves: Vec::new() }
    }

    /// Appends a move to the end of the record.
    pub fn record(&mut self, m: Move)
        ensures
            final(self)@ == old(self)@.push(m),
    {
        self.moves.push(m);
    }

    /// Removes and returns the most recent move, or `None` when nothing has
    /// been recorded — "nothing to undo", reported to the user, never fatal.
    pub fn undo(&mut self) -> (popped: Option<Move>)
        ensures
            old(self)@.len() == 0 ==> popped is None && final(self)@ == old(self)@,
            old(self)@.len() > 0 ==> popped == Some(old(self)@.last()) && final(self)@ == old(
                self,
            )@.drop_last(),
    {
        self.moves.pop()
    }

    /// How many moves are on record.
    pub fn len(&self) -> (n: usize)
        ensures
            n == self@.len(),
    {
        self.moves.len()
    }
}

} // verus!
