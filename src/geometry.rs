//! Cells, headings and the unit moves between cells.

use vstd::prelude::*;

verus! {

/// Side length of the square grid, in cells.
pub const GRID_SIZE: usize = 64;

/// A cell of the grid, addressed by row and column.
#[derive(Clone, Copy, Debug, PartialEq, Eq, Structural)]
pub struct Pos {
    pub row: usize,
    pub col: usize,
}

/// The heading of the snake's head.
#[derive(Clone, Copy, Debug, PartialEq, Eq, Structural)]
pub enum Direction {
    Up,
    Down,
    Left,
    Right,
}

/// The cell lies on the grid.
pub open spec fn in_grid(p: Pos) -> bool {
    p.row < GRID_SIZE && p.col < GRID_SIZE
}

/// The cell lies on the outermost ring of the grid.
pub open spec fn on_border(p: Pos) -> bool {
    p.row == 0 || p.col == 0 || p.row == GRID_SIZE - 1 || p.col == GRID_SIZE - 1
}

/// The cell lies on the grid but not on its outermost ring.
pub open spec fn interior(p: Pos) -> bool {
    in_grid(p) && !on_border(p)
}

/// The two cells share a side.
pub open spec fn adjacent(a: Pos, b: Pos) -> bool {
    (a.row == b.row && (a.col + 1 == b.col || b.col + 1 == a.col))
    || (a.col == b.col && (a.row + 1 == b.row || b.row + 1 == a.row))
}

/// The heading that points the other way.
pub open spec fn opposite_spec(d: Direction) -> Direction {
    match d {
        Direction::Up => Direction::Down,
        Direction::Down => Direction::Up,
        Direction::Left => Direction::Right,
        Direction::Right => Direction::Left,
    }
}

/// The cell one step from `p` in heading `d` (rows grow downwards).
pub open spec fn step_spec(p: Pos, d: Direction) -> Pos {
    match d {
        Direction::Up => Pos { row: (p.row - 1) as usize, col: p.col },
        Direction::Down => Pos { row: (p.row + 1) as usize, col: p.col },
        Direction::Left => Pos { row: p.row, col: (p.col - 1) as usize },
        Direction::Right => Pos { row: p.row, col: (p.col + 1) as usize },
    }
}

impl Direction {
    /// The heading that points the other way.
    pub fn opposite(self) -> (r: Direction)
        ensures
            r == opposite_spec(self),
    {
        match self {
            Direction::Up => Direction::Down,
            Direction::Down => Direction::Up,
            Direction::Left => Direction::Right,
            Direction::Right => Direction::Left,
        }
    }
}

/// The cell one step from an interior cell in the given heading; it is on the
/// grid and shares a side with the start.
pub fn step(p: Pos, d: Direction) -> (r: Pos)
    requires
        interior(p),
    ensures
        r == step_spec(p, d),
        in_grid(r),
        adjacent(p, r),
{
    match d {
        Direction::Up => Pos { row: p.row - 1, col: p.col },
        Direction::Down => Pos { row: p.row + 1, col: p.col },
        Direction::Left => Pos { row: p.row, col: p.col - 1 },
        Direction::Right => Pos { row: p.row, col: p.col + 1 },
    }
}

} // verus!
