//! Arithmetic on the cells of the board: rows, columns, edges and the
//! diagonals along which pieces travel.

use vstd::prelude::*;

verus! {

/// Number of cells along one side of the board.
pub const BOARD_LENGTH: usize = 8;

/// Number of cells on the board.
pub const BOARD_SIZE: usize = 64;

/// Column of a cell, counted from the left edge.
pub open spec fn column(pos: int) -> int {
    pos % 8
}

/// Row of a cell, counted from the top.
pub open spec fn line(pos: int) -> int {
    pos / 8
}

/// The cell in a given column and row.
pub open spec fn cell_of(x: int, y: int) -> int {
    y * 8 + x
}

/// Pieces only ever stand on the cells whose row and column have the same
/// parity.
pub open spec fn playable(pos: int) -> bool {
    column(pos) % 2 == line(pos) % 2
}

/// One of the four diagonal headings a piece can take.
#[derive(Debug, Clone, Copy, PartialEq, Eq, Structural)]
pub enum Direction {
    DownRight,
    UpRight,
    DownLeft,
    UpLeft,
}

impl Direction {
    /// True for the headings towards row 0.
    #[verifier::when_used_as_spec(spec_is_up)]
    pub fn is_up(self) -> (up: bool)
        ensures
            up == self.spec_is_up(),
    {
        match self {
            Direction::UpRight | Direction::UpLeft => true,
            _ => false,
        }
    }

    /// True for the headings towards row 0.
    pub open spec fn spec_is_up(self) -> bool {
        self == Direction::UpRight || self == Direction::UpLeft
    }

    /// True for the headings towards column 0.
    #[verifier::when_used_as_spec(spec_is_left)]
    pub fn is_left(self) -> (left: bool)
        ensures
            left == self.spec_is_left(),
    {
        match self {
            Direction::DownLeft | Direction::UpLeft => true,
            _ => false,
        }
    }

    /// True for the headings towards column 0.
    pub open spec fn spec_is_left(self) -> bool {
        self == Direction::DownLeft || self == Direction::UpLeft
    }
}

/// Column reached after `j` steps from `pos` along `dir`; it may lie off the
/// board.
pub open spec fn column_after(pos: int, dir: Direction, j: int) -> int {
    if dir.is_left() {
        column(pos) - j
    } else {
        column(pos) + j
    }
}

/// Row reached after `j` steps from `pos` along `dir`; it may lie off the
/// board.
pub open spec fn line_after(pos: int, dir: Direction, j: int) -> int {
    if dir.is_up() {
        line(pos) - j
    } else {
        line(pos) + j
    }
}

/// The cell `j` steps away from `pos` along `dir`, if the board reaches that
/// far. A diagonal never wraps from one edge of the board to the other.
pub open spec fn diagonal_cell(pos: int, dir: Direction, j: int) -> Option<int> {
    let x = column_after(pos, dir, j);
    let y = line_after(pos, dir, j);
    if 0 <= x < 8 && 0 <= y < 8 {
        Some(cell_of(x, y))
    } else {
        None
    }
}

/// The cell `j` steps from `source` along `dir`, where the board reaches
/// that far.
pub open spec fn ray_cell(source: int, dir: Direction, j: int) -> int {
    cell_of(column_after(source, dir, j), line_after(source, dir, j))
}

/// True when `pos` names a cell of the board.
pub fn is_in_bounds(pos: i32) -> (inside: bool)
    ensures
        inside == (0 <= pos < BOARD_SIZE),
{
    pos >= 0 && pos < 64
}

/// Column and row of a cell.
pub fn cell_coordinates(index: usize) -> (xy: (usize, usize))
    requires
        index < BOARD_SIZE,
    ensures
        xy.0 == column(index as int),
        xy.1 == line(index as int),
        xy.0 < BOARD_LENGTH,
        xy.1 < BOARD_LENGTH,
{
    (index % BOARD_LENGTH, index / BOARD_LENGTH)
}

/// True when a piece may stand on the cell.
pub fn is_playable(index: usize) -> (yes: bool)
    requires
        index < BOARD_SIZE,
    ensures
        yes == playable(index as int),
{
    let (x, y) = cell_coordinates(index);
    x % 2 == y % 2
}

/// True for the cells of the leftmost column.
pub fn on_left_edge(pos: usize) -> (edge: bool)
    ensures
        edge == (pos % 8 == 0),
{
    pos % BOARD_LENGTH == 0
}

/// True for the cells of the rightmost column.
pub fn on_right_edge(pos: usize) -> (edge: bool)
    ensures
        edge == ((pos + 1) % 8 == 0),
{
    pos % BOARD_LENGTH == BOARD_LENGTH - 1
}

/// Index of the position `n` rows above `pos` in the same column. The result
/// is negative when it lies above the board.
pub fn row_up(pos: usize, n: i32) -> (up: i32)
    requires
        pos <= i32::MAX,
        i32::MIN <= n * 8 <= i32::MAX,
        i32::MIN <= pos - n * 8 <= i32::MAX,
    ensures
        up == pos - n * 8,
{
    (pos as i32) - (n * 8)
}

/// Index of the position `n` rows below `pos` in the same column. The result
/// is `BOARD_SIZE` or more when it lies below the board.
pub fn row_down(pos: usize, n: i32) -> (down: i32)
    requires
        pos <= i32::MAX,
        i32::MIN <= n * 8 <= i32::MAX,
        i32::MIN <= pos + n * 8 <= i32::MAX,
    ensures
        down == pos + n * 8,
{
    (pos as i32) + (n * 8)
}

/// True for the cells of the bottom row.
pub fn on_last_line(i: usize) -> (last: bool)
    ensures
        last == (i < BOARD_SIZE && line(i as int) == 7),
{
    (BOARD_SIZE - BOARD_LENGTH) <= i && i < BOARD_SIZE
}

/// True for the cells of the top row.
pub fn on_first_line(i: usize) -> (first: bool)
    ensures
        first == (line(i as int) == 0),
{
    i < BOARD_LENGTH
}

/// The cell next to `pos` along `dir`, or `None` where `pos` lies on the
/// edge of the board in that heading. The edge checks keep the step from
/// wrapping into the neighbouring row.
pub fn neighbour(pos: usize, dir: Direction) -> (next: Option<usize>)
    requires
        pos < BOARD_SIZE,
    ensures
        next matches Some(c) ==> c < BOARD_SIZE && diagonal_cell(pos as int, dir, 1) == Some(
            c as int,
        ),
        next is None ==> diagonal_cell(pos as int, dir, 1) is None,
{
    let at_edge = if dir.is_left() {
        on_left_edge(pos)
    } else {
        on_right_edge(pos)
    };
    if at_edge {
        return None;
    }
    let row = if dir.is_up() {
        row_up(pos, 1)
    } else {
        row_down(pos, 1)
    };
    let next_diagonal = if dir.is_left() {
        row - 1
    } else {
        row + 1
    };
    if is_in_bounds(next_diagonal) {
        Some(next_diagonal as usize)
    } else {
        None
    }
}

/// The cell `j` steps away from `pos` along `dir`, or `None` where the board
/// ends before that.
pub fn diagonal(pos: usize, dir: Direction, j: usize) -> (next: Option<usize>)
    requires
        pos < BOARD_SIZE,
    ensures
        next matches Some(c) ==> c < BOARD_SIZE && diagonal_cell(pos as int, dir, j as int) == Some(
            c as int,
        ),
        next is None ==> diagonal_cell(pos as int, dir, j as int) is None,
{
    let mut cell = pos;
    let mut i: usize = 0;
    while i < j
        invariant
            i <= j,
            pos < BOARD_SIZE,
            cell < BOARD_SIZE,
            diagonal_cell(pos as int, dir, i as int) == Some(cell as int),
        decreases j - i,
    {
        proof {
            lemma_diagonal_step(pos as int, dir, i as int, cell as int);
        }
        match neighbour(cell, dir) {
            Some(next_diagonal) => {
                cell = next_diagonal;
            },
            None => {
                proof {
                    lemma_diagonal_ends(pos as int, dir, i + 1, j as int);
                }
                return None;
            },
        }
        i += 1;
    }
    Some(cell)
}

/// Once a diagonal has left the board it does not come back.
pub proof fn lemma_diagonal_ends(source: int, dir: Direction, j: int, k: int)
    requires
        0 <= source < 64,
        0 <= j <= k,
        diagonal_cell(source, dir, j) is None,
    ensures
        diagonal_cell(source, dir, k) is None,
{
}

/// Every cell of a diagonal before one that lies on the board lies on the
/// board too, and is the cell that `ray_cell` names.
pub proof fn lemma_diagonal_inside(source: int, dir: Direction, j: int, k: int)
    requires
        0 <= source < 64,
        0 <= j <= k,
        diagonal_cell(source, dir, k) is Some,
    ensures
        diagonal_cell(source, dir, j) == Some(ray_cell(source, dir, j)),
        0 <= ray_cell(source, dir, j) < 64,
{
}

/// One step beyond the `j`-th cell of a diagonal lies its next cell.
pub proof fn lemma_diagonal_step(source: int, dir: Direction, j: int, cell: int)
    requires
        0 <= source < 64,
        0 <= j,
        diagonal_cell(source, dir, j) == Some(cell),
    ensures
        diagonal_cell(cell, dir, 1) == diagonal_cell(source, dir, j + 1),
        cell == ray_cell(source, dir, j),
        0 <= cell < 64,
{
}

/// A diagonal stays on cells of one kind: from a playable cell it reaches
/// playable cells only.
pub proof fn lemma_diagonal_playable(source: int, dir: Direction, j: int)
    requires
        0 <= source < 64,
        0 <= j,
        diagonal_cell(source, dir, j) is Some,
    ensures
        playable(ray_cell(source, dir, j)) == playable(source),
{
}

} // verus!
