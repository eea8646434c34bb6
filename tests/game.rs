use snake_game::chain::List;
use snake_game::game::{Game, Status, is_valid_body};
use snake_game::geometry::{Direction, Pos, GRID_SIZE};
use snake_game::grid::{move_point, set_border, CellState, Grid};
use snake_game::input::{Control, InputEvent, InputLatch};
use snake_game::schedule::{cell_origin, remaining_sleep, FRAME_NANOS};

fn pos(row: usize, col: usize) -> Pos {
    Pos { row, col }
}

fn bordered_grid() -> Grid {
    let mut g = Grid::new();
    set_border(&mut g);
    g
}

fn count_food(g: &Game) -> usize {
    let mut n = 0;
    for row in 0..GRID_SIZE {
        for col in 0..GRID_SIZE {
            if g.classify(row, col) == CellState::Food {
                n += 1;
            }
        }
    }
    n
}

#[test]
fn one_tick_without_input_shifts_the_chain() {
    let mut g = Game::new(vec![pos(8, 8), pos(8, 7), pos(8, 6)]).unwrap();
    assert_eq!(g.classify(8, 6), CellState::SnakeBody);
    let mut latch = InputLatch::new(Direction::Right);
    let dir = latch.consume_and_reset();
    assert_eq!(g.tick(dir), Status::Running);
    assert_eq!(g.head(), pos(8, 9));
    assert_eq!(g.segments(), vec![pos(8, 9), pos(8, 8), pos(8, 7)]);
    assert_eq!(g.classify(8, 6), CellState::Empty);
    assert_eq!(g.classify(8, 9), CellState::SnakeBody);
    assert_eq!(g.classify(8, 8), CellState::SnakeBody);
    assert_eq!(g.classify(8, 7), CellState::SnakeBody);
}

#[test]
fn head_moves_one_cell_in_each_heading() {
    let cases = [
        (Direction::Up, pos(9, 10)),
        (Direction::Down, pos(11, 10)),
        (Direction::Left, pos(10, 9)),
        (Direction::Right, pos(10, 11)),
    ];
    for (d, expected) in cases {
        let mut g = Game::new(vec![pos(10, 10)]).unwrap();
        assert_eq!(g.tick(d), Status::Running);
        assert_eq!(g.segments(), vec![expected]);
        assert_eq!(g.classify(10, 10), CellState::Empty);
    }
}

#[test]
fn eating_food_grows_the_chain_and_moves_the_food() {
    let mut g = Game::new(vec![pos(8, 9), pos(8, 8), pos(8, 7)]).unwrap();
    assert!(g.place_food_at(pos(8, 10)));
    assert_eq!(g.classify(8, 10), CellState::Food);
    assert_eq!(g.tick(Direction::Right), Status::Running);
    assert_eq!(g.len(), 4);
    assert_eq!(g.segments(), vec![pos(8, 10), pos(8, 9), pos(8, 8), pos(8, 7)]);
    let f = g.food().unwrap();
    assert_ne!(f, pos(8, 10));
    assert!(!g.segments().contains(&f));
    assert!(f.row >= 1 && f.row < GRID_SIZE - 1 && f.col >= 1 && f.col < GRID_SIZE - 1);
    assert_eq!(g.classify(f.row, f.col), CellState::Food);
    assert_eq!(count_food(&g), 1);
    assert_eq!(g.status(), Status::Running);
}

#[test]
fn grown_tail_separates_on_the_next_tick() {
    let mut g = Game::new(vec![pos(8, 9), pos(8, 8)]).unwrap();
    assert!(g.place_food_at(pos(8, 10)));
    g.tick(Direction::Right);
    let f = g.food().unwrap();
    if f != pos(9, 10) {
        assert_eq!(g.tick(Direction::Down), Status::Running);
        assert_eq!(g.segments(), vec![pos(9, 10), pos(8, 10), pos(8, 9)]);
        assert_eq!(g.classify(8, 8), CellState::Empty);
    }
}

#[test]
fn moving_onto_a_wall_ends_the_game_unchanged() {
    let mut g = Game::new(vec![pos(1, 5), pos(2, 5)]).unwrap();
    let before = g.segments();
    assert_eq!(g.tick(Direction::Up), Status::GameOver);
    assert_eq!(g.status(), Status::GameOver);
    assert_eq!(g.segments(), before);
    assert_eq!(g.classify(0, 5), CellState::Wall);
    assert_eq!(g.classify(1, 5), CellState::SnakeBody);
    assert_eq!(g.tick(Direction::Right), Status::GameOver);
    assert_eq!(g.segments(), before);
}

#[test]
fn moving_onto_the_body_ends_the_game() {
    let body = vec![pos(5, 5), pos(5, 6), pos(6, 6), pos(6, 5), pos(6, 4)];
    let mut g = Game::new(body.clone()).unwrap();
    assert_eq!(g.tick(Direction::Down), Status::GameOver);
    assert_eq!(g.segments(), body);
    assert_eq!(g.classify(6, 4), CellState::SnakeBody);
}

#[test]
fn reversing_into_the_neck_ends_the_game() {
    let mut g = Game::new(vec![pos(8, 8), pos(8, 7)]).unwrap();
    assert_eq!(g.tick(Direction::Left), Status::GameOver);
}

#[test]
fn border_stays_wall_over_ticks() {
    let mut g = Game::start();
    for _ in 0..60 {
        for i in 0..GRID_SIZE {
            assert_eq!(g.classify(i, 0), CellState::Wall);
            assert_eq!(g.classify(i, GRID_SIZE - 1), CellState::Wall);
            assert_eq!(g.classify(0, i), CellState::Wall);
            assert_eq!(g.classify(GRID_SIZE - 1, i), CellState::Wall);
        }
        g.tick(Direction::Down);
    }
    assert_eq!(g.status(), Status::GameOver);
}

#[test]
fn start_has_three_segments_and_one_food() {
    let g = Game::start();
    assert_eq!(g.segments(), vec![pos(8, 8), pos(8, 7), pos(8, 6)]);
    assert_eq!(g.status(), Status::Running);
    assert!(g.food().is_some());
    assert_eq!(count_food(&g), 1);
    // 252 border cells, 3 segments, 1 food.
    assert_eq!(g.draw_cells().len(), 256);
}

#[test]
fn invalid_bodies_are_refused() {
    assert!(Game::new(vec![]).is_none());
    assert!(Game::new(vec![pos(0, 5)]).is_none());
    assert!(Game::new(vec![pos(5, 63)]).is_none());
    assert!(Game::new(vec![pos(5, 5), pos(5, 7)]).is_none());
    assert!(Game::new(vec![pos(5, 5), pos(6, 6)]).is_none());
    assert!(Game::new(vec![pos(5, 5), pos(5, 6), pos(5, 5)]).is_none());
    assert!(Game::new(vec![pos(5, 5), pos(5, 6), pos(6, 6)]).is_some());
    assert!(!is_valid_body(&vec![pos(64, 5)]));
    assert!(is_valid_body(&vec![pos(62, 62), pos(62, 61)]));
}

#[test]
fn food_is_placed_only_on_an_empty_interior_cell() {
    let mut g = Game::new(vec![pos(8, 8), pos(8, 7)]).unwrap();
    assert!(!g.place_food_at(pos(0, 3)));
    assert!(!g.place_food_at(pos(8, 7)));
    assert!(!g.place_food_at(pos(70, 3)));
    assert_eq!(count_food(&g), 0);
    assert!(g.place_food_at(pos(3, 3)));
    assert!(!g.place_food_at(pos(4, 4)));
    assert_eq!(g.food(), Some(pos(3, 3)));
    assert_eq!(g.place_food(), Some(pos(3, 3)));
    assert_eq!(count_food(&g), 1);
}

#[test]
fn random_food_lands_on_an_empty_interior_cell() {
    let mut g = Game::new(vec![pos(8, 8), pos(8, 7)]).unwrap();
    let f = g.place_food().unwrap();
    assert!(f.row >= 1 && f.row < GRID_SIZE - 1 && f.col >= 1 && f.col < GRID_SIZE - 1);
    assert!(f != pos(8, 8) && f != pos(8, 7));
    assert_eq!(g.classify(f.row, f.col), CellState::Food);
}

#[test]
fn random_food_cells_vary() {
    let mut seen = Vec::new();
    for _ in 0..60 {
        let mut grid = bordered_grid();
        let p = move_point(&mut grid).unwrap();
        seen.push(p);
    }
    assert!(seen.iter().any(|p| *p != seen[0]));
}

#[test]
fn move_point_on_a_full_grid_places_nothing() {
    let mut grid = bordered_grid();
    for row in 1..GRID_SIZE - 1 {
        for col in 1..GRID_SIZE - 1 {
            grid.set(row, col, CellState::SnakeBody);
        }
    }
    grid.set(40, 20, CellState::Empty);
    assert_eq!(move_point(&mut grid), Some(pos(40, 20)));
    assert_eq!(grid.classify(40, 20), CellState::Food);
    assert_eq!(move_point(&mut grid), None);
    assert_eq!(grid.classify(40, 20), CellState::Food);
}

#[test]
fn grid_set_and_classify() {
    let mut grid = Grid::new();
    assert_eq!(grid.classify(5, 7), CellState::Empty);
    grid.set(5, 7, CellState::Food);
    assert_eq!(grid.classify(5, 7), CellState::Food);
    assert_eq!(grid.classify(7, 5), CellState::Empty);
    assert!(grid.draw_cells() == vec![pos(5, 7)]);
    assert!(!grid.place_food_at(5, 7));
    assert!(!grid.place_food_at(0, 7));
    assert!(grid.place_food_at(6, 7));
    assert_eq!(grid.classify(6, 7), CellState::Food);
}

#[test]
fn set_border_walls_the_ring_only() {
    let mut grid = Grid::new();
    grid.set(10, 10, CellState::Food);
    set_border(&mut grid);
    for i in 0..GRID_SIZE {
        assert_eq!(grid.classify(i, 0), CellState::Wall);
        assert_eq!(grid.classify(i, 63), CellState::Wall);
        assert_eq!(grid.classify(0, i), CellState::Wall);
        assert_eq!(grid.classify(63, i), CellState::Wall);
    }
    assert_eq!(grid.classify(1, 1), CellState::Empty);
    assert_eq!(grid.classify(62, 62), CellState::Empty);
    assert_eq!(grid.classify(10, 10), CellState::Food);
    assert_eq!(grid.draw_cells().len(), 253);
}

#[test]
fn latch_refuses_reversal() {
    let mut l = InputLatch::new(Direction::Right);
    l.record(Direction::Left);
    assert_eq!(l.direction, Direction::Right);
    assert!(l.action_taken);

    let mut l = InputLatch::new(Direction::Right);
    l.record(Direction::Up);
    assert_eq!(l.direction, Direction::Up);

    let mut l = InputLatch::new(Direction::Right);
    l.record(Direction::Down);
    assert_eq!(l.direction, Direction::Down);
}

#[test]
fn latch_takes_one_event_per_tick() {
    let mut l = InputLatch::new(Direction::Right);
    l.record(Direction::Up);
    l.record(Direction::Left);
    assert_eq!(l.direction, Direction::Up);
    assert_eq!(l.consume_and_reset(), Direction::Up);
    assert!(!l.action_taken);
    l.record(Direction::Left);
    assert_eq!(l.direction, Direction::Left);
}

#[test]
fn reset_twice_keeps_direction() {
    let mut l = InputLatch::new(Direction::Down);
    l.record(Direction::Left);
    assert_eq!(l.consume_and_reset(), Direction::Left);
    let after_one = l;
    assert_eq!(l.consume_and_reset(), Direction::Left);
    assert_eq!(l, after_one);
    assert_eq!(l.direction, Direction::Left);
}

#[test]
fn events_quit_record_or_pass() {
    let mut l = InputLatch::new(Direction::Up);
    assert_eq!(l.handle_event(InputEvent::Other), Control::Continue);
    assert!(!l.action_taken);
    assert_eq!(l.handle_event(InputEvent::Arrow(Direction::Left)), Control::Continue);
    assert_eq!(l.direction, Direction::Left);
    assert_eq!(l.handle_event(InputEvent::Quit), Control::Quit);
    assert_eq!(l.handle_event(InputEvent::Escape), Control::Quit);
    assert_eq!(l.direction, Direction::Left);
}

#[test]
fn opposite_headings() {
    assert_eq!(Direction::Up.opposite(), Direction::Down);
    assert_eq!(Direction::Down.opposite(), Direction::Up);
    assert_eq!(Direction::Left.opposite(), Direction::Right);
    assert_eq!(Direction::Right.opposite(), Direction::Left);
}

#[test]
fn frame_pacing() {
    assert_eq!(FRAME_NANOS, 66_666_666);
    assert_eq!(remaining_sleep(FRAME_NANOS, 16_666_666), 50_000_000);
    assert_eq!(remaining_sleep(FRAME_NANOS, FRAME_NANOS), 0);
    assert_eq!(remaining_sleep(FRAME_NANOS, 100_000_000), 0);
}

#[test]
fn cell_squares_on_screen() {
    assert_eq!(cell_origin(pos(8, 9)), (144, 128));
    assert_eq!(cell_origin(pos(63, 0)), (0, 1008));
}

#[test]
fn chain_operations() {
    let mut l = List(pos(3, 3));
    assert_eq!(l.len(), 1);
    assert_eq!(l.last(), Some(&pos(3, 3)));
    l.insert(pos(3, 2));
    l.insert(pos(3, 1));
    assert_eq!(*l.head(), pos(3, 3));
    assert_eq!(l.last(), Some(&pos(3, 1)));
    assert_eq!(l.tail_position(), pos(3, 1));
    let vacated = l.prepend_propagate(pos(3, 4));
    assert_eq!(vacated, pos(3, 1));
    assert_eq!(*l.get(0), pos(3, 4));
    assert_eq!(*l.get(1), pos(3, 3));
    assert_eq!(*l.get(2), pos(3, 2));
    l.append_at_tail();
    assert_eq!(l.len(), 4);
    assert_eq!(*l.get(3), pos(3, 2));
    let vacated = l.prepend_propagate(pos(3, 5));
    assert_eq!(vacated, pos(3, 2));
    assert_eq!(*l.get(3), pos(3, 2));
    assert_eq!(*l.get(2), pos(3, 3));
}

#[test]
fn draw_cells_come_in_row_major_order() {
    let g = Game::start();
    let cells = g.draw_cells();
    for w in cells.windows(2) {
        assert!((w[0].row, w[0].col) < (w[1].row, w[1].col));
    }
    assert_eq!(cells[0], pos(0, 0));
    assert_eq!(cells[63], pos(0, 63));
    assert_eq!(cells[64], pos(1, 0));
}
