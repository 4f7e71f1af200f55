//! The grid itself: for every cell, the piece that stands on it, if any.

use vstd::prelude::*;
use crate::geometry::BOARD_SIZE;
use crate::pieces::PieceRef;

verus! {

/// The 64 cells of the board. A cell is empty or holds the name of exactly
/// one piece. The board stores what it is told and judges no move.
pub struct Board {
    cells: Vec<Option<PieceRef>>,
}

impl View for Board {
    type V = Seq<Option<PieceRef>>;

    closed spec fn view(&self) -> Seq<Option<PieceRef>> {
        self.cells@
    }
}

/// A board without pieces.
pub open spec fn empty_cells() -> Seq<Option<PieceRef>> {
    Seq::new(BOARD_SIZE as nat, |c: int| None::<PieceRef>)
}

impl Board {
    /// A board has one entry for each of its cells.
    pub open spec fn wf(&self) -> bool {
        self@.len() == BOARD_SIZE
    }

    /// A board without pieces.
    pub fn new() -> (board: Board)
        ensures
            board.wf(),
            board@ == empty_cells(),
    {
        let mut cells: Vec<Option<PieceRef>> = Vec::new();
        let mut i: usize = 0;
        while i < BOARD_SIZE
            invariant
                i <= BOARD_SIZE,
                cells@.len() == i,
                forall|c: int| 0 <= c < i ==> cells@[c] is None,
            decreases BOARD_SIZE - i,
        {
            cells.push(None);
            i += 1;
        }
        assert(cells@ =~= empty_cells());
        Board { cells }
    }

    /// The piece on a cell, if there is one.
    pub fn occupant(&self, index: usize) -> (piece: Option<PieceRef>)
        requires
            self.wf(),
            index < BOARD_SIZE,
        ensures
            piece == self@[index as int],
    {
        self.cells[index]
    }

    /// Puts `piece` on a cell, in place of whatever the cell held.
    pub fn place(&mut self, index: usize, piece: PieceRef)
        requires
            old(self).wf(),
            index < BOARD_SIZE,
        ensures
            final(self).wf(),
            final(self)@ == old(self)@.update(index as int, Some(piece)),
    {
        self.cells.set(index, Some(piece));
    }

    /// Empties a cell.
    pub fn clear(&mut self, index: usize)
        requires
            old(self).wf(),
            index < BOARD_SIZE,
        ensures
            final(self).wf(),
            final(self)@ == old(self)@.update(index as int, None),
    {
        self.cells.set(index, None);
    }
}

} // verus!
