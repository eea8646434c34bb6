//! The grid: a fixed-size square map from cells to what occupies them.

use vstd::prelude::*;
use crate::geometry::{GRID_SIZE, Pos, in_grid, on_border, interior};
use rand::Rng;

verus! {

/// What occupies a cell.
#[derive(Clone, Copy, Debug, PartialEq, Eq, Structural)]
pub enum CellState {
    Empty,
    SnakeBody,
    Wall,
    Food,
}

/// How many random draws `move_point` makes before it falls back to scanning.
pub const MAX_DRAWS: usize = 4096;

/// Where a cell is stored in the row-major cell vector.
pub open spec fn index_of(p: Pos) -> int {
    p.row * GRID_SIZE + p.col
}

/// A `GRID_SIZE` by `GRID_SIZE` map of cell states, stored row by row.
pub struct Grid {
    cells: Vec<CellState>,
}

impl Grid {
    /// The cell vector covers the whole grid.
    pub closed spec fn wf(self) -> bool {
        self.cells@.len() == GRID_SIZE * GRID_SIZE
    }

    /// What occupies cell `p`.
    pub closed spec fn cell(self, p: Pos) -> CellState {
        self.cells@[index_of(p)]
    }

    /// What occupies the cell at `row`, `col`.
    pub open spec fn cell_at(self, row: usize, col: usize) -> CellState {
        self.cell(Pos { row, col })
    }

    /// `other` differs from `self` at most in cell `p`, which holds `s`.
    pub open spec fn updated(self, other: Grid, p: Pos, s: CellState) -> bool {
        &&& other.cell(p) == s
        &&& forall|q: Pos| in_grid(q) && q != p ==> #[trigger] other.cell(q) == self.cell(q)
    }

    /// A grid whose cells are all empty.
    pub fn new() -> (r: Grid)
        ensures
            r.wf(),
            forall|p: Pos| in_grid(p) ==> #[trigger] r.cell(p) == CellState::Empty,
    {
        let mut cells: Vec<CellState> = Vec::new();
        let n: usize = GRID_SIZE * GRID_SIZE;
        while cells.len() < n
            invariant
                n == GRID_SIZE * GRID_SIZE,
                cells@.len() <= n,
                forall|i: int| 0 <= i < cells@.len() ==> cells@[i] == CellState::Empty,
            decreases n - cells@.len(),
        {
            cells.push(CellState::Empty);
        }
        let r = Grid { cells };
        assert forall|p: Pos| in_grid(p) implies #[trigger] r.cell(p) == CellState::Empty by {
            assert(0 <= index_of(p) < GRID_SIZE * GRID_SIZE);
        }
        r
    }

    /// What occupies the cell at `row`, `col`.
    pub fn classify(&self, row: usize, col: usize) -> (r: CellState)
        requires
            self.wf(),
            row < GRID_SIZE,
            col < GRID_SIZE,
        ensures
            r == self.cell_at(row, col),
    {
        self.cells[row * GRID_SIZE + col]
    }

    /// Writes `state` into the cell at `row`, `col`, leaving every other cell as
    /// it was.
    pub fn set(&mut self, row: usize, col: usize, state: CellState)
        requires
            old(self).wf(),
            row < GRID_SIZE,
            col < GRID_SIZE,
        ensures
            final(self).wf(),
            old(self).updated(*final(self), Pos { row, col }, state),
    {
        self.cells.set(row * GRID_SIZE + col, state);
        proof {
            let p = Pos { row, col };
            assert forall|q: Pos| in_grid(q) && q != p implies #[trigger] self.cell(q) == old(
                self,
            ).cell(q) by {
                assert(index_of(q) != index_of(p));
            }
        }
    }

    /// Marks the cell at `row`, `col` as food when it is an empty interior
    /// cell; reports whether it did. Otherwise the grid is left as it was.
    pub fn place_food_at(&mut self, row: usize, col: usize) -> (r: bool)
        requires
            old(self).wf(),
        ensures
            final(self).wf(),
            r == (interior(Pos { row, col }) && old(self).cell(Pos { row, col }) == CellState::Empty),
            r ==> old(self).updated(*final(self), Pos { row, col }, CellState::Food),
            !r ==> *final(self) == *old(self),
    {
        if row >= 1 && row < GRID_SIZE - 1 && col >= 1 && col < GRID_SIZE - 1 {
            if self.classify(row, col) == CellState::Empty {
                self.set(row, col, CellState::Food);
                return true;
            }
        }
        false
    }

    /// Looks for an empty interior cell, in row-major order.
    fn first_empty_interior(&self) -> (r: Option<Pos>)
        requires
            self.wf(),
        ensures
            r matches Some(p) ==> interior(p) && self.cell(p) == CellState::Empty,
            r is None ==> forall|q: Pos| interior(q) ==> #[trigger] self.cell(q) != CellState::Empty,
    {
        let mut row: usize = 1;
        while row < GRID_SIZE - 1
            invariant
                1 <= row <= GRID_SIZE - 1,
                self.wf(),
                forall|q: Pos| interior(q) && q.row < row ==> #[trigger] self.cell(q) != CellState::Empty,
            decreases GRID_SIZE - row,
        {
            let mut col: usize = 1;
            while col < GRID_SIZE - 1
                invariant
                    1 <= row < GRID_SIZE - 1,
                    1 <= col <= GRID_SIZE - 1,
                    self.wf(),
                    forall|q: Pos| interior(q) && (q.row < row || (q.row == row && q.col < col))
                        ==> #[trigger] self.cell(q) != CellState::Empty,
                decreases GRID_SIZE - col,
            {
                if self.classify(row, col) == CellState::Empty {
                    return Some(Pos { row, col });
                }
                col = col + 1;
            }
            row = row + 1;
        }
        None
    }

    /// Every occupied cell (wall, snake body or food), each once, in row-major
    /// order: what the render layer draws.
    pub fn draw_cells(&self) -> (r: Vec<Pos>)
        requires
            self.wf(),
        ensures
            r@.no_duplicates(),
            forall|i: int| 0 <= i < r@.len() ==> in_grid(#[trigger] r@[i]) && self.cell(r@[i]) != CellState::Empty,
            forall|i: int, j: int| 0 <= i < j < r@.len() ==> index_of(#[trigger] r@[i]) < index_of(#[trigger] r@[j]),
            forall|p: Pos| in_grid(p) && #[trigger] self.cell(p) != CellState::Empty ==> r@.contains(p),
    {
        let mut r: Vec<Pos> = Vec::new();
        let mut row: usize = 0;
        while row < GRID_SIZE
            invariant
                row <= GRID_SIZE,
                self.wf(),
                forall|i: int| 0 <= i < r@.len() ==> in_grid(#[trigger] r@[i]) && self.cell(r@[i]) != CellState::Empty,
                forall|i: int| 0 <= i < r@.len() ==> (#[trigger] r@[i]).row < row,
                forall|i: int, j: int| 0 <= i < j < r@.len() ==> index_of(#[trigger] r@[i]) < index_of(#[trigger] r@[j]),
                forall|p: Pos| in_grid(p) && p.row < row && #[trigger] self.cell(p) != CellState::Empty ==> r@.contains(p),
            decreases GRID_SIZE - row,
        {
            let mut col: usize = 0;
            while col < GRID_SIZE
                invariant
                    row < GRID_SIZE,
                    col <= GRID_SIZE,
                    self.wf(),
                    forall|i: int| 0 <= i < r@.len() ==> in_grid(#[trigger] r@[i]) && self.cell(r@[i]) != CellState::Empty,
                    forall|i: int| 0 <= i < r@.len() ==> index_of(#[trigger] r@[i]) < row * GRID_SIZE + col,
                    forall|i: int, j: int| 0 <= i < j < r@.len() ==> index_of(#[trigger] r@[i]) < index_of(#[trigger] r@[j]),
                    forall|p: Pos| in_grid(p) && (p.row < row || (p.row == row && p.col < col)) && #[trigger] self.cell(p) != CellState::Empty ==> r@.contains(p),
                decreases GRID_SIZE - col,
            {
                let p = Pos { row, col };
                if self.classify(row, col) != CellState::Empty {
                    let ghost before = r@;
                    r.push(p);
                    proof {
                        assert(r@[r@.len() - 1] == p);
                        assert forall|q: Pos| in_grid(q) && (q.row < row || (q.row == row && q.col < col + 1)) && #[trigger] self.cell(q) != CellState::Empty implies r@.contains(q) by {
                            if q == p {
                                assert(r@[r@.len() - 1] == q);
                            } else {
                                let k = choose|k: int| 0 <= k < before.len() && before[k] == q;
                                assert(r@[k] == q);
                            }
                        }
                    }
                }
                col = col + 1;
            }
            assert forall|i: int| 0 <= i < r@.len() implies (#[trigger] r@[i]).row < row + 1 by {
                assert(index_of(r@[i]) < row * GRID_SIZE + GRID_SIZE);
            }
            row = row + 1;
        }
        proof {
            assert forall|i: int, j: int| 0 <= i < r@.len() && 0 <= j < r@.len() && i != j implies r@[i] != r@[j] by {
                if i < j {
                    assert(index_of(r@[i]) < index_of(r@[j]));
                } else {
                    assert(index_of(r@[j]) < index_of(r@[i]));
                }
            }
        }
        r
    }
}

/// Draws a number uniformly from `low` up to but excluding `high`.
///
/// Relies on rand's `thread_rng().gen_range(low, high)`: the result is
/// at least `low` and below `high`; it panics only where `low >= high`, which
/// `requires` leaves out.
#[verifier::external_body]
fn gen(low: usize, high: usize) -> (r: usize)
    requires
        low < high,
    ensures
        low <= r < high,
{
    rand::thread_rng().gen_range(low, high)
}

/// Every border cell is a wall and every other cell is as it was.
pub open spec fn bordered(before: Grid, after: Grid) -> bool {
    forall|q: Pos| #![trigger after.cell(q)] in_grid(q) ==> after.cell(q) == if on_border(q) {
        CellState::Wall
    } else {
        before.cell(q)
    }
}

/// Marks the outermost ring of the grid as wall.
pub fn set_border(map: &mut Grid)
    requires
        old(map).wf(),
    ensures
        final(map).wf(),
        bordered(*old(map), *final(map)),
{
    let mut n: usize = 0;
    while n < GRID_SIZE
        invariant
            n <= GRID_SIZE,
            map.wf(),
            forall|q: Pos| #![trigger map.cell(q)] in_grid(q) ==> map.cell(q) == if (q.row < n
                && (q.col == 0 || q.col == GRID_SIZE - 1)) || (q.col < n && (q.row == 0 || q.row
                == GRID_SIZE - 1)) {
                CellState::Wall
            } else {
                old(map).cell(q)
            },
        decreases GRID_SIZE - n,
    {
        map.set(n, 0, CellState::Wall);
        map.set(n, GRID_SIZE - 1, CellState::Wall);
        map.set(0, n, CellState::Wall);
        map.set(GRID_SIZE - 1, n, CellState::Wall);
        n = n + 1;
    }
}

/// Puts food on an empty interior cell and returns that cell.
///
/// Cells are drawn at random among the interior ones and rejected until an
/// empty one comes up. After `MAX_DRAWS` rejected draws the grid is scanned in
/// row-major order for the first empty interior cell instead, so the call always
/// ends; it returns `None`, with the grid unchanged, only when no interior cell
/// is empty.
pub fn move_point(map: &mut Grid) -> (r: Option<Pos>)
    requires
        old(map).wf(),
    ensures
        final(map).wf(),
        r is None <==> forall|q: Pos| interior(q) ==> #[trigger] old(map).cell(q) != CellState::Empty,
        r matches Some(p) ==> interior(p) && old(map).cell(p) == CellState::Empty
            && old(map).updated(*final(map), p, CellState::Food),
        r is None ==> *final(map) == *old(map),
{
    let mut draws: usize = 0;
    while draws < MAX_DRAWS
        invariant
            *map == *old(map),
            map.wf(),
        decreases MAX_DRAWS - draws,
    {
        let row = gen(1, GRID_SIZE - 1);
        let col = gen(1, GRID_SIZE - 1);
        if map.place_food_at(row, col) {
            return Some(Pos { row, col });
        }
        draws = draws + 1;
    }
    match map.first_empty_interior() {
        Some(p) => {
            if map.place_food_at(p.row, p.col) {
                Some(p)
            } else {
                None
            }
        },
        None => None,
    }
}

} // verus!
