//! The rules of movement, stated over a position: which requests are simple
//! moves, which are captures, and which are refused.

use vstd::prelude::*;
use crate::geometry::{column, diagonal_cell, line, ray_cell, Direction};
use crate::pieces::{Checker, Color, Rank};

verus! {

/// What came of a request to move a piece.
#[derive(Debug, Clone, Copy, PartialEq, Eq, Structural)]
pub enum MoveResult {
    /// The piece went to an empty cell.
    Moved,
    /// The piece jumped over an enemy piece, which left the board.
    Captured,
    /// The request matched no legal move; nothing changed.
    Rejected,
}

/// How the rules judge a request to go from one cell to another.
pub enum Resolution {
    /// A simple move.
    Move,
    /// A capture of the piece on the given cell.
    Capture(int),
    /// Not a legal move.
    Illegal,
}

/// The heading that leads from `source` towards `target`.
pub open spec fn heading(source: int, target: int) -> Direction {
    if line(target) < line(source) {
        if column(target) < column(source) {
            Direction::UpLeft
        } else {
            Direction::UpRight
        }
    } else {
        if column(target) < column(source) {
            Direction::DownLeft
        } else {
            Direction::DownRight
        }
    }
}

/// Number of rows between two cells.
pub open spec fn distance(source: int, target: int) -> int {
    if line(target) < line(source) {
        line(source) - line(target)
    } else {
        line(target) - line(source)
    }
}

/// True when two different cells lie on one diagonal.
pub open spec fn on_diagonal(source: int, target: int) -> bool {
    let dx = column(target) - column(source);
    let dy = line(target) - line(source);
    dy != 0 && (dx == dy || dx == -dy)
}

/// True when the first `n - 1` cells from `source` along `dir` are empty.
pub open spec fn path_clear(
    position: Seq<Option<Checker>>,
    source: int,
    dir: Direction,
    n: int,
) -> bool {
    forall|j: int| 1 <= j < n ==> position[#[trigger] ray_cell(source, dir, j)] is None
}

/// True when `cell` holds a piece of the player that does not own `mover`.
pub open spec fn holds_enemy(position: Seq<Option<Checker>>, mover: Checker, cell: int) -> bool {
    match position[cell] {
        Some(other) => other.color != mover.color,
        None => false,
    }
}

/// The row on which a piece of `color` becomes a king: the row farthest from
/// where that colour starts.
pub open spec fn promotes(color: Color, cell: int) -> bool {
    match color {
        Color::Green => line(cell) == 7,
        Color::Red => line(cell) == 0,
    }
}

/// The rules of movement. A request from `source` to `target` is legal only
/// when `source` holds a piece, `target` is empty and both lie on one
/// diagonal. It is then
/// - a simple move when every cell in between is empty, over one step for a
///   normal piece and over any number of steps for a king;
/// - a capture when the cell just before `target` holds an enemy piece and
///   every cell before that one is empty, over two steps for a normal piece
///   and over any number of steps for a king.
pub open spec fn resolution(position: Seq<Option<Checker>>, source: int, target: int) -> Resolution {
    if !(0 <= source < 64 && 0 <= target < 64) {
        Resolution::Illegal
    } else {
        match position[source] {
            None => Resolution::Illegal,
            Some(mover) => {
                let dir = heading(source, target);
                let k = distance(source, target);
                let last = ray_cell(source, dir, k - 1);
                if position[target] is Some || !on_diagonal(source, target) {
                    Resolution::Illegal
                } else if path_clear(position, source, dir, k) {
                    if mover.rank == Rank::King || k == 1 {
                        Resolution::Move
                    } else {
                        Resolution::Illegal
                    }
                } else if path_clear(position, source, dir, k - 1) && holds_enemy(
                    position,
                    mover,
                    last,
                ) {
                    if mover.rank == Rank::King || k == 2 {
                        Resolution::Capture(last)
                    } else {
                        Resolution::Illegal
                    }
                } else {
                    Resolution::Illegal
                }
            },
        }
    }
}

/// True when `target` is none of the first `n - 1` cells from `source`
/// along `dir`.
pub open spec fn untouched(source: int, target: int, dir: Direction, n: int) -> bool {
    forall|j: int| 1 <= j < n ==> #[trigger] ray_cell(source, dir, j) != target
}

/// True when the heading `dir` holds no legal move from `source` to
/// `target`.
pub open spec fn barren(
    position: Seq<Option<Checker>>,
    source: int,
    target: int,
    dir: Direction,
) -> bool {
    on_diagonal(source, target) && heading(source, target) == dir ==> resolution(
        position,
        source,
        target,
    ) is Illegal
}

/// A request that no heading holds a legal move for is illegal.
pub proof fn lemma_all_barren(position: Seq<Option<Checker>>, source: int, target: int)
    requires
        barren(position, source, target, Direction::DownRight),
        barren(position, source, target, Direction::UpRight),
        barren(position, source, target, Direction::DownLeft),
        barren(position, source, target, Direction::UpLeft),
    ensures
        resolution(position, source, target) is Illegal,
{
}

/// A step along a diagonal arrives at `target` exactly when `target` lies on
/// the diagonal of `source`, in that heading and at that distance.
pub proof fn lemma_diagonal_target(source: int, target: int, dir: Direction, j: int)
    requires
        0 <= source < 64,
        0 <= target < 64,
        1 <= j,
    ensures
        diagonal_cell(source, dir, j) == Some(target) <==> on_diagonal(source, target) && heading(
            source,
            target,
        ) == dir && distance(source, target) == j,
{
}

} // verus!
