//! The simulation step: the snake, the grid it lives on, and the per-tick
//! state machine that moves it.

use vstd::prelude::*;
use crate::chain::List;
use crate::geometry::{GRID_SIZE, Direction, Pos, adjacent, in_grid, interior, on_border, step, step_spec};
use crate::grid::{CellState, Grid, index_of, move_point, set_border};

verus! {

/// Whether the game goes on.
#[derive(Clone, Copy, Debug, PartialEq, Eq, Structural)]
pub enum Status {
    Running,
    GameOver,
}

/// A body the snake can have: at least one segment, each on an interior cell,
/// no two on the same cell, and each next to the one before it.
pub open spec fn valid_body(s: Seq<Pos>) -> bool {
    &&& s.len() >= 1
    &&& forall|i: int| 0 <= i < s.len() ==> interior(#[trigger] s[i])
    &&& s.no_duplicates()
    &&& forall|i: int| 0 <= i < s.len() - 1 ==> adjacent(#[trigger] s[i], s[i + 1])
}

/// What the cell `q` of a well-formed game holds, given the snake's body and
/// the food.
pub open spec fn expected_cell(body: Seq<Pos>, food: Option<Pos>, q: Pos) -> CellState {
    if on_border(q) {
        CellState::Wall
    } else if body.contains(q) {
        CellState::SnakeBody
    } else if food == Some(q) {
        CellState::Food
    } else {
        CellState::Empty
    }
}

/// The world: the grid, the snake on it, where the food is, and whether the
/// game goes on.
pub struct Game {
    grid: Grid,
    snake: List<Pos>,
    food: Option<Pos>,
    status: Status,
}

impl Game {
    /// The grid.
    pub closed spec fn grid_spec(self) -> Grid {
        self.grid
    }

    /// The snake's segments, head first.
    pub closed spec fn body(self) -> Seq<Pos> {
        self.snake@
    }

    /// The food cell, if there is one.
    pub closed spec fn food_spec(self) -> Option<Pos> {
        self.food
    }

    /// Whether the game goes on.
    pub closed spec fn status_spec(self) -> Status {
        self.status
    }

    /// The cell the head moves to next in heading `dir`.
    pub open spec fn next_head(self, dir: Direction) -> Pos {
        step_spec(self.body()[0], dir)
    }

    /// What `after` is, given that it is `self` advanced by one tick in
    /// heading `dir`.
    pub open spec fn ticked(self, after: Game, dir: Direction) -> bool {
        let cand = self.next_head(dir);
        let c = self.grid_spec().cell(cand);
        if self.status_spec() == Status::GameOver {
            after == self
        } else if c == CellState::Wall || c == CellState::SnakeBody {
            &&& after.status_spec() == Status::GameOver
            &&& after.body() == self.body()
            &&& after.food_spec() == self.food_spec()
            &&& after.grid_spec() == self.grid_spec()
        } else if c == CellState::Food {
            &&& after.status_spec() == Status::Running
            &&& after.body() == seq![cand] + self.body()
            &&& (after.food_spec() is None <==> forall|q: Pos|
                interior(q) ==> #[trigger] after.body().contains(q))
        } else {
            &&& after.status_spec() == Status::Running
            &&& after.body() == seq![cand] + self.body().drop_last()
            &&& after.food_spec() == self.food_spec()
        }
    }

    /// The grid is in step with the body and the food: walls exactly on the
    /// border, snake body exactly on the segments, food exactly on the food
    /// cell, and the body is one the snake can have.
    pub open spec fn wf(self) -> bool {
        &&& self.grid_spec().wf()
        &&& valid_body(self.body())
        &&& (self.food_spec() matches Some(f) ==> interior(f) && !self.body().contains(f))
        &&& forall|q: Pos| in_grid(q) ==> #[trigger] self.grid_spec().cell(q) == expected_cell(
            self.body(),
            self.food_spec(),
            q,
        )
    }
}

/// Putting a fresh interior cell next to the head in front of a body gives a
/// body the snake can have.
proof fn lemma_prepend_valid(b: Seq<Pos>, c: Pos)
    requires
        valid_body(b),
        interior(c),
        adjacent(c, b[0]),
        !b.contains(c),
    ensures
        valid_body(seq![c] + b),
{
    let s = seq![c] + b;
    assert forall|i: int| 0 <= i < s.len() implies interior(#[trigger] s[i]) by {
        if i > 0 {
            assert(s[i] == b[i - 1]);
        }
    }
    assert forall|i: int, j: int| 0 <= i < s.len() && 0 <= j < s.len() && i != j implies s[i]
        != s[j] by {
        if i == 0 {
            assert(s[j] == b[j - 1]);
        } else if j == 0 {
            assert(s[i] == b[i - 1]);
        } else {
            assert(s[i] == b[i - 1] && s[j] == b[j - 1]);
        }
    }
    assert forall|i: int| 0 <= i < s.len() - 1 implies adjacent(#[trigger] s[i], s[i + 1]) by {
        if i > 0 {
            assert(s[i] == b[i - 1] && s[i + 1] == b[i]);
        }
    }
}

/// Dropping the tail of a body of two or more segments leaves a body the
/// snake can have, which holds every cell of the old one but the tail.
proof fn lemma_drop_last_valid(s: Seq<Pos>)
    requires
        valid_body(s),
        s.len() >= 2,
    ensures
        valid_body(s.drop_last()),
        forall|q: Pos| #[trigger] s.drop_last().contains(q) <==> (s.contains(q) && q != s.last()),
{
    let t = s.drop_last();
    assert forall|i: int| 0 <= i < t.len() implies interior(#[trigger] t[i]) by {
        assert(t[i] == s[i]);
    }
    assert forall|i: int| 0 <= i < t.len() - 1 implies adjacent(#[trigger] t[i], t[i + 1]) by {
        assert(t[i] == s[i] && t[i + 1] == s[i + 1]);
    }
    assert forall|q: Pos| #[trigger] t.contains(q) <==> (s.contains(q) && q != s.last()) by {
        if t.contains(q) {
            let k = choose|k: int| 0 <= k < t.len() && t[k] == q;
            assert(s[k] == q);
        }
        if s.contains(q) && q != s.last() {
            let k = choose|k: int| 0 <= k < s.len() && s[k] == q;
            assert(t[k] == q);
        }
    }
}

/// Whether the two cells share a side.
fn is_adjacent(a: Pos, b: Pos) -> (r: bool)
    requires
        in_grid(a),
        in_grid(b),
    ensures
        r == adjacent(a, b),
{
    (a.row == b.row && (a.col + 1 == b.col || b.col + 1 == a.col)) || (a.col == b.col && (a.row
        + 1 == b.row || b.row + 1 == a.row))
}

/// Whether the cell lies on the grid but off its border.
pub fn is_interior(p: Pos) -> (r: bool)
    ensures
        r == interior(p),
{
    p.row >= 1 && p.row < GRID_SIZE - 1 && p.col >= 1 && p.col < GRID_SIZE - 1
}

/// Whether `body` is a body the snake can have.
pub fn is_valid_body(body: &Vec<Pos>) -> (r: bool)
    ensures
        r == valid_body(body@),
{
    let n = body.len();
    if n == 0 {
        return false;
    }
    let mut i: usize = 0;
    while i < n
        invariant
            n == body@.len(),
            i <= n,
            forall|k: int| 0 <= k < i ==> interior(#[trigger] body@[k]),
            forall|k: int| 0 <= k < i && k + 1 < n ==> adjacent(#[trigger] body@[k], body@[k + 1]),
            forall|k: int, m: int| 0 <= k < i && 0 <= m < n && k != m ==> #[trigger] body@[k] != #[trigger] body@[m],
        decreases n - i,
    {
        let p = body[i];
        if !is_interior(p) {
            return false;
        }
        if i + 1 < n {
            let q = body[i + 1];
            if !(in_grid_exec(q) && is_adjacent(p, q)) {
                return false;
            }
        }
        let mut j: usize = 0;
        while j < n
            invariant
                n == body@.len(),
                i < n,
                j <= n,
                p == body@[i as int],
                forall|m: int| 0 <= m < j && m != i ==> #[trigger] body@[m] != p,
            decreases n - j,
        {
            if j != i && body[j] == p {
                return false;
            }
            j = j + 1;
        }
        i = i + 1;
    }
    true
}

/// Whether the cell lies on the grid.
fn in_grid_exec(p: Pos) -> (r: bool)
    ensures
        r == in_grid(p),
{
    p.row < GRID_SIZE && p.col < GRID_SIZE
}

impl Game {
    /// A running game whose snake has the segments `body`, head first, on a
    /// grid walled at the border and with no food yet; `None` when `body` is no
    /// body the snake can have.
    pub fn new(body: Vec<Pos>) -> (r: Option<Game>)
        ensures
            r is Some <==> valid_body(body@),
            r matches Some(g) ==> g.wf() && g.body() == body@ && g.food_spec() is None
                && g.status_spec() == Status::Running,
    {
        if !is_valid_body(&body) {
            return None;
        }
        let mut grid = Grid::new();
        let ghost empty = grid;
        set_border(&mut grid);
        let ghost walled = grid;
        let mut snake = List(body[0]);
        proof {
            assert(interior(body@[0]));
        }
        grid.set(body[0].row, body[0].col, CellState::SnakeBody);
        let n = body.len();
        let mut i: usize = 1;
        proof {
            assert(snake@ =~= body@.take(1));
            assert forall|q: Pos| in_grid(q) implies #[trigger] grid.cell(q) == expected_cell(
                body@.take(1),
                None,
                q,
            ) by {
                assert(empty.cell(q) == CellState::Empty);
                assert(walled.cell(q) == if on_border(q) {
                    CellState::Wall
                } else {
                    empty.cell(q)
                });
                if body@.take(1).contains(q) {
                    let k = choose|k: int| 0 <= k < 1 && body@.take(1)[k] == q;
                    assert(k == 0);
                }
                if q == body@[0] {
                    assert(body@.take(1)[0] == q);
                }
            }
        }
        while i < n
            invariant
                n == body@.len(),
                1 <= i <= n,
                valid_body(body@),
                grid.wf(),
                snake@ == body@.take(i as int),
                forall|q: Pos| in_grid(q) ==> #[trigger] grid.cell(q) == expected_cell(
                    body@.take(i as int),
                    None,
                    q,
                ),
            decreases n - i,
        {
            let p = body[i];
            proof {
                assert(interior(body@[i as int]));
            }
            let ghost before = grid;
            grid.set(p.row, p.col, CellState::SnakeBody);
            snake.insert(p);
            proof {
                let t = body@.take(i as int + 1);
                assert(t =~= body@.take(i as int).push(p));
                assert forall|q: Pos| in_grid(q) implies #[trigger] grid.cell(q) == expected_cell(
                    t,
                    None,
                    q,
                ) by {
                    if q == p {
                        assert(t[i as int] == q);
                    } else {
                        assert(before.cell(q) == expected_cell(body@.take(i as int), None, q));
                        if t.contains(q) {
                            let k = choose|k: int| 0 <= k < t.len() && t[k] == q;
                            assert(body@.take(i as int)[k] == q);
                        }
                        if body@.take(i as int).contains(q) {
                            let k = choose|k: int| 0 <= k < i && body@.take(i as int)[k] == q;
                            assert(t[k] == q);
                        }
                    }
                }
            }
            i = i + 1;
        }
        proof {
            assert(body@.take(n as int) =~= body@);
        }
        Some(Game { grid, snake, food: None, status: Status::Running })
    }

    /// The opening position: a snake of three segments with its head at row 8,
    /// column 8 and its body trailing to the left, and food on a random empty
    /// interior cell.
    pub fn start() -> (r: Game)
        ensures
            r.wf(),
            r.body() == seq![Pos { row: 8, col: 8 }, Pos { row: 8, col: 7 }, Pos { row: 8, col: 6 }],
            r.food_spec() is Some,
            r.status_spec() == Status::Running,
    {
        let body = vec![Pos { row: 8, col: 8 }, Pos { row: 8, col: 7 }, Pos { row: 8, col: 6 }];
        proof {
            let s = body@;
            assert(s =~= seq![Pos { row: 8, col: 8 }, Pos { row: 8, col: 7 }, Pos { row: 8, col: 6 }]);
            assert forall|i: int, j: int| 0 <= i < s.len() && 0 <= j < s.len() && i != j implies s[i]
                != s[j] by {}
            assert(s.no_duplicates());
            assert(valid_body(s));
        }
        let mut g = Game::new(body).unwrap();
        let f = g.place_food();
        proof {
            let corner = Pos { row: 1, col: 1 };
            assert(interior(corner));
            if !g.body().contains(corner) {
            } else {
                let k = choose|k: int| 0 <= k < 3 && g.body()[k] == corner;
            }
        }
        g
    }

    /// Where the head is.
    pub fn head(&self) -> (r: Pos)
        requires
            self.wf(),
        ensures
            r == self.body()[0],
    {
        *self.snake.head()
    }

    /// Number of segments.
    pub fn len(&self) -> (r: usize)
        ensures
            r == self.body().len(),
    {
        self.snake.len()
    }

    /// The segments' cells, head first.
    pub fn segments(&self) -> (r: Vec<Pos>)
        ensures
            r@ == self.body(),
    {
        let mut r: Vec<Pos> = Vec::new();
        let n = self.snake.len();
        let mut i: usize = 0;
        while i < n
            invariant
                n == self.snake@.len(),
                i <= n,
                r@ == self.snake@.take(i as int),
            decreases n - i,
        {
            r.push(*self.snake.get(i));
            proof {
                assert(r@ =~= self.snake@.take(i as int + 1));
            }
            i = i + 1;
        }
        proof {
            assert(r@ =~= self.snake@);
        }
        r
    }

    /// The food cell, if there is one.
    pub fn food(&self) -> (r: Option<Pos>)
        ensures
            r == self.food_spec(),
    {
        self.food
    }

    /// Whether the game goes on.
    pub fn status(&self) -> (r: Status)
        ensures
            r == self.status_spec(),
    {
        self.status
    }

    /// What occupies the cell at `row`, `col`.
    pub fn classify(&self, row: usize, col: usize) -> (r: CellState)
        requires
            self.wf(),
            row < GRID_SIZE,
            col < GRID_SIZE,
        ensures
            r == expected_cell(self.body(), self.food_spec(), Pos { row, col }),
    {
        self.grid.classify(row, col)
    }

    /// Every occupied cell, each once, in row-major order: what the render
    /// layer draws besides the head.
    pub fn draw_cells(&self) -> (r: Vec<Pos>)
        requires
            self.wf(),
        ensures
            r@.no_duplicates(),
            forall|i: int, j: int| 0 <= i < j < r@.len() ==> index_of(#[trigger] r@[i]) < index_of(#[trigger] r@[j]),
            forall|i: int| 0 <= i < r@.len() ==> in_grid(#[trigger] r@[i]) && expected_cell(
                self.body(),
                self.food_spec(),
                r@[i],
            ) != CellState::Empty,
            forall|p: Pos| in_grid(p) && #[trigger] expected_cell(self.body(), self.food_spec(), p)
                != CellState::Empty ==> r@.contains(p),
    {
        let r = self.grid.draw_cells();
        proof {
            assert forall|p: Pos| in_grid(p) && #[trigger] expected_cell(self.body(), self.food_spec(), p)
                != CellState::Empty implies r@.contains(p) by {
                assert(self.grid.cell(p) != CellState::Empty);
            }
        }
        r
    }

    /// Puts food on cell `p` when the game has no food and `p` is an empty
    /// interior cell; reports whether it did. Otherwise nothing changes.
    pub fn place_food_at(&mut self, p: Pos) -> (r: bool)
        requires
            old(self).wf(),
        ensures
            final(self).wf(),
            r == (old(self).food_spec() is None && interior(p) && !old(self).body().contains(p)),
            r ==> final(self).food_spec() == Some(p),
            !r ==> *final(self) == *old(self),
            final(self).body() == old(self).body(),
            final(self).status_spec() == old(self).status_spec(),
    {
        if self.food.is_some() {
            return false;
        }
        let ghost g0 = self.grid;
        if !is_interior(p) {
            return false;
        }
        let placed = self.grid.place_food_at(p.row, p.col);
        proof {
            assert(g0.cell(p) == expected_cell(self.snake@, None, p));
        }
        if placed {
            self.food = Some(p);
            proof {
                assert forall|q: Pos| in_grid(q) implies #[trigger] self.grid.cell(q) == expected_cell(
                    self.snake@,
                    self.food,
                    q,
                ) by {
                    assert(g0.cell(q) == expected_cell(self.snake@, None, q));
                }
            }
        }
        placed
    }

    /// Puts food on a random empty interior cell when the game has none, and
    /// returns the food cell; `None` when there is no food and every interior
    /// cell is part of the snake.
    pub fn place_food(&mut self) -> (r: Option<Pos>)
        requires
            old(self).wf(),
        ensures
            final(self).wf(),
            r == final(self).food_spec(),
            old(self).food_spec() is Some ==> *final(self) == *old(self),
            old(self).food_spec() is None ==> (r is None <==> forall|q: Pos|
                interior(q) ==> #[trigger] old(self).body().contains(q)),
            final(self).body() == old(self).body(),
            final(self).status_spec() == old(self).status_spec(),
    {
        if self.food.is_some() {
            return self.food;
        }
        let ghost g0 = self.grid;
        let f = move_point(&mut self.grid);
        self.food = f;
        proof {
            assert forall|q: Pos| in_grid(q) implies #[trigger] self.grid.cell(q) == expected_cell(
                self.snake@,
                self.food,
                q,
            ) by {
                assert(g0.cell(q) == expected_cell(self.snake@, None, q));
            }
            if f is None {
                assert forall|q: Pos| interior(q) implies #[trigger] self.snake@.contains(q) by {
                    assert(g0.cell(q) == expected_cell(self.snake@, None, q));
                }
            } else {
                let p = f.unwrap();
                assert(g0.cell(p) == expected_cell(self.snake@, None, p));
                assert(!(forall|q: Pos| interior(q) ==> #[trigger] self.snake@.contains(q)));
            }
        }
        f
    }

    /// Advances the game by one tick with heading `dir`.
    ///
    /// The head's next cell is the one next to it in heading `dir`. If that
    /// cell is a wall or part of the snake, the game is over and nothing else
    /// changes. Otherwise the head moves there and every other segment takes
    /// the place its predecessor held. If the cell held food, the snake keeps
    /// its old tail (it grows by one) and new food is put on an empty interior
    /// cell, if one is left.
    pub fn tick(&mut self, dir: Direction) -> (r: Status)
        requires
            old(self).wf(),
        ensures
            final(self).wf(),
            r == final(self).status_spec(),
            old(self).ticked(*final(self), dir),
    {
        if self.status == Status::GameOver {
            return Status::GameOver;
        }
        let head = *self.snake.head();
        proof {
            assert(interior(self.snake@[0]));
        }
        let cand = step(head, dir);
        let c = self.grid.classify(cand.row, cand.col);
        if c == CellState::Wall || c == CellState::SnakeBody {
            self.status = Status::GameOver;
            return Status::GameOver;
        }
        let ghost b0 = self.snake@;
        let ghost f0 = self.food;
        proof {
            assert(self.grid.cell(cand) == expected_cell(b0, f0, cand));
            assert(interior(cand));
            assert(!b0.contains(cand));
            lemma_prepend_valid(b0, cand);
        }
        let ate = c == CellState::Food;
        if ate {
            self.snake.append_at_tail();
            self.food = None;
        }
        let vacated = self.snake.prepend_propagate(cand);
        if !ate {
            self.grid.set(vacated.row, vacated.col, CellState::Empty);
        }
        self.grid.set(cand.row, cand.col, CellState::SnakeBody);
        proof {
            let b1 = seq![cand] + b0;
            if ate {
                assert(self.snake@ =~= b1);
            } else {
                assert(self.snake@ =~= b1.drop_last());
                assert(b1.last() == b0.last());
                if b0.len() >= 2 {
                    lemma_drop_last_valid(b1);
                } else {
                    assert(self.snake@ =~= seq![cand]);
                    assert forall|q: Pos| #[trigger] self.snake@.contains(q) <==> (b1.contains(q) && q != b1.last()) by {
                        if q == cand {
                            assert(self.snake@[0] == q);
                        }
                        if b1.contains(q) && q != b1.last() {
                            let k = choose|k: int| 0 <= k < b1.len() && b1[k] == q;
                            assert(k == 0);
                        }
                    }
                }
            }
            assert forall|q: Pos| #[trigger] b1.contains(q) <==> (q == cand || b0.contains(q)) by {
                if b1.contains(q) && q != cand {
                    let k = choose|k: int| 0 <= k < b1.len() && b1[k] == q;
                    assert(b0[k - 1] == q);
                }
                if b0.contains(q) {
                    let k = choose|k: int| 0 <= k < b0.len() && b0[k] == q;
                    assert(b1[k + 1] == q);
                }
                if q == cand {
                    assert(b1[0] == q);
                }
            }
        }
        if ate {
            let ghost mid = self.grid;
            proof {
                assert forall|q: Pos| in_grid(q) implies #[trigger] mid.cell(q) == expected_cell(
                    self.snake@,
                    None,
                    q,
                ) by {
                    assert(b0.contains(q) ==> self.snake@.contains(q));
                }
            }
            let f = move_point(&mut self.grid);
            self.food = f;
            proof {
                if f is None {
                    assert forall|q: Pos| interior(q) implies #[trigger] self.snake@.contains(q) by {
                        assert(mid.cell(q) != CellState::Empty);
                    }
                } else {
                    let p = f.unwrap();
                    assert(!self.snake@.contains(p));
                    assert(!(forall|q: Pos| interior(q) ==> #[trigger] self.snake@.contains(q)));
                }
            }
        }
        Status::Running
    }
}

/// A tick onto an empty cell moves the head one cell in the heading and puts
/// every other segment where its predecessor was; the length stays the same.
pub proof fn lemma_shift_by_one(before: Game, after: Game, dir: Direction)
    requires
        before.wf(),
        before.ticked(after, dir),
        before.status_spec() == Status::Running,
        before.grid_spec().cell(before.next_head(dir)) == CellState::Empty,
    ensures
        after.status_spec() == Status::Running,
        after.body().len() == before.body().len(),
        after.body()[0] == step_spec(before.body()[0], dir),
        forall|i: int| 1 <= i < after.body().len() ==> #[trigger] after.body()[i] == before.body()[i - 1],
{
}

/// Eating food lengthens the snake by exactly one segment, and the new food,
/// if any, lies on an interior cell that is neither snake body nor the cell
/// the food was just eaten from. The old tail stays the last segment and its
/// cell stays snake body.
pub proof fn lemma_growth(before: Game, after: Game, dir: Direction)
    requires
        before.wf(),
        after.wf(),
        before.ticked(after, dir),
        before.status_spec() == Status::Running,
        before.grid_spec().cell(before.next_head(dir)) == CellState::Food,
    ensures
        after.status_spec() == Status::Running,
        after.body().len() == before.body().len() + 1,
        after.body().last() == before.body().last(),
        after.grid_spec().cell(before.body().last()) == CellState::SnakeBody,
        after.food_spec() matches Some(f) ==> interior(f) && !after.body().contains(f) && f
            != before.next_head(dir) && after.grid_spec().cell(f) == CellState::Food,
{
    let cand = before.next_head(dir);
    assert(after.body()[0] == cand);
    let t = before.body().last();
    assert(after.body()[after.body().len() - 1] == t);
    assert(interior(before.body()[before.body().len() - 1]));
    assert(after.body().contains(t));
    assert(after.grid_spec().cell(t) == expected_cell(after.body(), after.food_spec(), t));
    if let Some(f) = after.food_spec() {
        assert(after.grid_spec().cell(f) == expected_cell(after.body(), after.food_spec(), f));
    }
}

/// Moving the head onto a wall or onto the snake ends the game and changes
/// neither the grid, the snake nor the food.
pub proof fn lemma_collision(before: Game, after: Game, dir: Direction)
    requires
        before.wf(),
        before.ticked(after, dir),
        before.status_spec() == Status::Running,
        before.grid_spec().cell(before.next_head(dir)) == CellState::Wall
            || before.grid_spec().cell(before.next_head(dir)) == CellState::SnakeBody,
    ensures
        after.status_spec() == Status::GameOver,
        after.grid_spec() == before.grid_spec(),
        after.body() == before.body(),
        after.food_spec() == before.food_spec(),
{
}

/// In every well-formed game (and every game method keeps the game
/// well-formed) the first and last row and column are all wall.
pub proof fn lemma_border_walls(g: Game)
    requires
        g.wf(),
    ensures
        forall|i: usize| i < GRID_SIZE ==> #[trigger] g.grid_spec().cell_at(i, 0) == CellState::Wall,
        forall|i: usize| i < GRID_SIZE ==> #[trigger] g.grid_spec().cell_at(i, (GRID_SIZE - 1) as usize)
            == CellState::Wall,
        forall|i: usize| i < GRID_SIZE ==> #[trigger] g.grid_spec().cell_at(0, i) == CellState::Wall,
        forall|i: usize| i < GRID_SIZE ==> #[trigger] g.grid_spec().cell_at((GRID_SIZE - 1) as usize, i)
            == CellState::Wall,
{
    assert forall|i: usize| i < GRID_SIZE implies {
        &&& g.grid_spec().cell_at(i, 0) == CellState::Wall
        &&& g.grid_spec().cell_at(i, (GRID_SIZE - 1) as usize) == CellState::Wall
        &&& g.grid_spec().cell_at(0, i) == CellState::Wall
        &&& g.grid_spec().cell_at((GRID_SIZE - 1) as usize, i) == CellState::Wall
    } by {
        assert(in_grid(Pos { row: i, col: 0 }));
        assert(in_grid(Pos { row: i, col: (GRID_SIZE - 1) as usize }));
        assert(in_grid(Pos { row: 0, col: i }));
        assert(in_grid(Pos { row: (GRID_SIZE - 1) as usize, col: i }));
    }
}

} // verus!
