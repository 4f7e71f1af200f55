//! Where the cells of the board lie on the screen, and which cell a pointer
//! position falls on.

use vstd::prelude::*;
use crate::geometry::{cell_coordinates, column, line, BOARD_SIZE};

verus! {

/// Side of the square that a cell takes on the screen.
pub const CONTAINER_WIDTH: usize = 100;

/// Gap between the border of a cell and the piece that stands on it.
pub const CHECKER_PADDING: usize = 20;

/// Gap between the top left corner of the screen and the board.
pub const OUTER_PADDING: usize = 20;

/// A rectangle on the screen, given by its top left corner and its size.
#[derive(Debug, Clone, Copy, PartialEq, Eq, Structural)]
pub struct Tile {
    pub x: i32,
    pub y: i32,
    pub width: u32,
    pub height: u32,
}

impl Tile {
    /// True when the point lies inside the rectangle: on or after its left
    /// and top sides, before its right and bottom sides.
    pub open spec fn covers(self, px: int, py: int) -> bool {
        &&& self.x <= px < self.x + self.width
        &&& self.y <= py < self.y + self.height
    }

    /// Hit test of a point against the rectangle.
    pub fn contains_point(&self, px: i32, py: i32) -> (inside: bool)
        ensures
            inside == self.covers(px as int, py as int),
    {
        let inside_x = px >= self.x && (px as i64) < self.x as i64 + self.width as i64;
        inside_x && py >= self.y && (py as i64) < self.y as i64 + self.height as i64
    }
}

/// The screen rectangle of a cell.
pub open spec fn board_tile_spec(index: int) -> Tile {
    Tile {
        x: (100 * column(index) + 20) as i32,
        y: (100 * line(index) + 20) as i32,
        width: 100,
        height: 100,
    }
}

/// The screen rectangle of the piece that stands on a cell.
pub open spec fn checker_tile_spec(index: int) -> Tile {
    Tile {
        x: (100 * column(index) + 40) as i32,
        y: (100 * line(index) + 40) as i32,
        width: 60,
        height: 60,
    }
}

/// The screen rectangle of a cell.
pub fn board_tile(index: usize) -> (tile: Tile)
    requires
        index < BOARD_SIZE,
    ensures
        tile == board_tile_spec(index as int),
{
    let (x, y) = cell_coordinates(index);
    Tile {
        x: (CONTAINER_WIDTH * x + OUTER_PADDING) as i32,
        y: (CONTAINER_WIDTH * y + OUTER_PADDING) as i32,
        width: CONTAINER_WIDTH as u32,
        height: CONTAINER_WIDTH as u32,
    }
}

/// The screen rectangle of the piece that stands on a cell: the cell's own
/// rectangle, shrunk by the padding on every side.
pub fn checker_tile(index: usize) -> (tile: Tile)
    requires
        index < BOARD_SIZE,
    ensures
        tile == checker_tile_spec(index as int),
{
    let container = board_tile(index);
    Tile {
        x: container.x + CHECKER_PADDING as i32,
        y: container.y + CHECKER_PADDING as i32,
        width: (CONTAINER_WIDTH - CHECKER_PADDING * 2) as u32,
        height: (CONTAINER_WIDTH - CHECKER_PADDING * 2) as u32,
    }
}

/// The rectangle of the given size whose centre is the given point.
pub open spec fn centered_spec(center_x: int, center_y: int, width: int, height: int) -> Tile {
    Tile {
        x: (center_x - width / 2) as i32,
        y: (center_y - height / 2) as i32,
        width: width as u32,
        height: height as u32,
    }
}

/// The rectangle of the given size whose centre is the given point. The
/// rectangle must lie in the range of the screen's coordinates.
pub fn centered(center_x: i32, center_y: i32, width: u32, height: u32) -> (tile: Tile)
    requires
        i32::MIN <= center_x - width / 2,
        i32::MIN <= center_y - height / 2,
    ensures
        tile == centered_spec(center_x as int, center_y as int, width as int, height as int),
{
    Tile {
        x: (center_x as i64 - (width / 2) as i64) as i32,
        y: (center_y as i64 - (height / 2) as i64) as i32,
        width,
        height,
    }
}

/// The cell of the board under a point of the screen.
pub open spec fn cell_under(px: int, py: int) -> Option<int> {
    if 20 <= px < 820 && 20 <= py < 820 {
        Some((py - 20) / 100 * 8 + (px - 20) / 100)
    } else {
        None
    }
}

/// The cell whose screen rectangle holds the point, if there is one.
pub fn find_target_rect(px: i32, py: i32) -> (found: Option<usize>)
    ensures
        found matches Some(i) ==> cell_under(px as int, py as int) == Some(i as int),
        found is None ==> cell_under(px as int, py as int) is None,
        found matches Some(i) ==> i < BOARD_SIZE,
{
    let mut i: usize = 0;
    while i < BOARD_SIZE
        invariant
            i <= BOARD_SIZE,
            forall|k: int| 0 <= k < i ==> !(#[trigger] board_tile_spec(k)).covers(px as int, py as int),
        decreases BOARD_SIZE - i,
    {
        if board_tile(i).contains_point(px, py) {
            return Some(i);
        }
        i += 1;
    }
    proof {
        if let Some(c) = cell_under(px as int, py as int) {
            assert(board_tile_spec(c).covers(px as int, py as int));
        }
    }
    None
}

} // verus!
