use cell_automata::automatons::{CellState, Gol, Seeds, BB};
use cell_automata::color::Color;
use cell_automata::cell::Cell;
use cell_automata::game::{ConfigError, Game};
use cell_automata::rect::Rect;

fn states<T: CellState>(game: &Game<T>) -> Vec<Vec<T>> {
    game.cells.iter().map(|column| column.iter().map(|cell| cell.state).collect()).collect()
}

fn rects<T: CellState>(game: &Game<T>) -> Vec<Vec<Rect>> {
    game.cells.iter().map(|column| column.iter().map(|cell| cell.rect).collect()).collect()
}

fn life(width: usize, height: usize, alive: &[(usize, usize)]) -> Game<Gol> {
    let mut game = Game::<Gol>::new(width, height, 600, 600).unwrap();
    for &(x, y) in alive {
        game.cells[x][y].state = Gol::Gray;
    }
    game
}

fn life_states(width: usize, height: usize, alive: &[(usize, usize)]) -> Vec<Vec<Gol>> {
    states(&life(width, height, alive))
}

#[test]
fn new_rejects_zero_dimensions() {
    assert_eq!(Game::<Gol>::new(0, 5, 100, 100).err(), Some(ConfigError::ZeroDimension));
    assert_eq!(Game::<Gol>::new(5, 0, 100, 100).err(), Some(ConfigError::ZeroDimension));
    assert_eq!(Game::<Gol>::new(5, 5, 0, 100).err(), Some(ConfigError::ZeroDimension));
    assert_eq!(Game::<Gol>::new(5, 5, 100, 0).err(), Some(ConfigError::ZeroDimension));
    assert_eq!(Game::<Gol>::new(0, 0, 0, 0).err(), Some(ConfigError::ZeroDimension));
}

#[test]
fn new_rejects_cells_without_a_pixel() {
    assert_eq!(Game::<Gol>::new(101, 5, 100, 200).err(), Some(ConfigError::ZeroCellSize));
    assert_eq!(Game::<Gol>::new(5, 101, 200, 100).err(), Some(ConfigError::ZeroCellSize));
    assert_eq!(Game::<Seeds>::new(usize::MAX, 1, 100, 100).err(), Some(ConfigError::ZeroCellSize));
    assert!(Game::<Gol>::new(100, 5, 100, 200).is_ok());
}

#[test]
fn new_centers_square_cells_in_the_window() {
    let game = Game::<Gol>::new(100, 100, 1920, 1080).unwrap();
    assert_eq!(game.width(), 100);
    assert_eq!(game.height(), 100);
    assert_eq!(game.cells[0][0].rect, Rect { x: 460, y: 40, w: 10, h: 10 });
    assert_eq!(game.cells[1][0].rect, Rect { x: 470, y: 40, w: 10, h: 10 });
    assert_eq!(game.cells[0][1].rect, Rect { x: 460, y: 50, w: 10, h: 10 });
    assert_eq!(game.cells[99][99].rect, Rect { x: 1450, y: 1030, w: 10, h: 10 });
}

#[test]
fn new_rounds_the_cell_size_down() {
    let game = Game::<BB>::new(3, 7, 100, 50).unwrap();
    assert_eq!(game.width(), 3);
    assert_eq!(game.height(), 7);
    assert_eq!(game.cells[0][0].rect, Rect { x: 39, y: 0, w: 7, h: 7 });
    assert_eq!(game.cells[2][6].rect, Rect { x: 53, y: 42, w: 7, h: 7 });
}

#[test]
fn new_grid_is_all_default() {
    let game = Game::<BB>::new(4, 3, 100, 100).unwrap();
    assert_eq!(states(&game), vec![vec![BB::White; 3]; 4]);
    let game = Game::<Gol>::new(1, 1, 1, 1).unwrap();
    assert_eq!(states(&game), vec![vec![Gol::White]]);
    assert_eq!(game.cells[0][0].rect, Rect { x: 0, y: 0, w: 1, h: 1 });
}

#[test]
fn cell_methods() {
    let mut cell = Cell { state: BB::White, rect: Rect::new(0, 0, 5, 5) };
    assert!(cell.is_state(BB::White));
    assert!(!cell.is_state(BB::Red));
    assert_eq!(cell.option_state(BB::White), Some(()));
    assert_eq!(cell.option_state(BB::Gray), None);
    assert_eq!(cell.color(), Color { r: 255, g: 255, b: 255, a: 255 });
    cell.toggle();
    assert_eq!(cell.state, BB::Gray);
    assert_eq!(cell.color(), Color { r: 128, g: 128, b: 128, a: 255 });
    cell.toggle();
    assert_eq!(cell.state, BB::Red);
    assert_eq!(cell.color(), Color { r: 255, g: 0, b: 0, a: 255 });
    cell.switch(BB::Gray);
    assert_eq!(cell.state, BB::Gray);
    assert_eq!(cell.rect, Rect { x: 0, y: 0, w: 5, h: 5 });
}

#[test]
fn wrap_idx_wraps_both_axes() {
    let game = life(4, 3, &[]);
    assert_eq!(game.wrap_idx(0, 0), (0, 0));
    assert_eq!(game.wrap_idx(-1, -1), (3, 2));
    assert_eq!(game.wrap_idx(4, 3), (0, 0));
    assert_eq!(game.wrap_idx(-2, -2), (2, 1));
    assert_eq!(game.wrap_idx(9, -7), (1, 2));
}

#[test]
fn neighbor_queries_wrap_at_every_edge() {
    let mut game = Game::<BB>::new(4, 3, 400, 300).unwrap();
    for x in 0..4 {
        for y in 0..3 {
            game.cells[x][y].state = BB::from_ordinal((x + 2 * y) % 3);
        }
    }
    for y in 0..3isize {
        let left = game.cell(-1, y).unwrap().state;
        assert_eq!(left, game.cell(3, y).unwrap().state);
        assert_eq!(left, game.cells[3][y as usize].state);
        let right = game.cell(4, y).unwrap().state;
        assert_eq!(right, game.cells[0][y as usize].state);
    }
    for x in 0..4isize {
        assert_eq!(game.cell(x, -1).unwrap().state, game.cells[x as usize][2].state);
        assert_eq!(game.cell(x, 3).unwrap().state, game.cells[x as usize][0].state);
    }
    assert_eq!(game.cell(-1, -1).unwrap().state, game.cells[3][2].state);
    assert_eq!(game.cell(4, -1).unwrap().state, game.cells[0][2].state);
    assert_eq!(game.cell(-1, 3).unwrap().state, game.cells[3][0].state);
    assert_eq!(game.cell(4, 3).unwrap().state, game.cells[0][0].state);
    assert!(game.cell_is_state(-1, -1, game.cells[3][2].state));
    assert!(!game.cell_is_state(-1, -1, game.cells[3][2].state.toggle()));
}

#[test]
fn surround_counts_neighbors_and_own_ordinal() {
    let game = life(5, 5, &[(1, 2), (2, 2), (3, 2)]);
    let mut surround = Vec::new();
    game.update_surround(2, 2, &mut surround);
    assert_eq!(surround, vec![6, 2, 1]);
    game.update_surround(2, 1, &mut surround);
    assert_eq!(surround, vec![5, 3, 0]);
    game.update_surround(0, 0, &mut surround);
    assert_eq!(surround, vec![8, 0, 0]);
    game.update_surround(1, 2, &mut surround);
    assert_eq!(surround, vec![7, 1, 1]);
}

#[test]
fn surround_wraps_like_the_grid() {
    let game = life(5, 5, &[(0, 0), (4, 4), (4, 0)]);
    let mut at_edge = Vec::new();
    let mut outside = Vec::new();
    game.update_surround(0, 0, &mut at_edge);
    assert_eq!(at_edge, vec![6, 2, 1]);
    game.update_surround(-1, 2, &mut outside);
    game.update_surround(4, 2, &mut at_edge);
    assert_eq!(outside, at_edge);
    game.update_surround(5, 5, &mut outside);
    game.update_surround(0, 0, &mut at_edge);
    assert_eq!(outside, at_edge);
    game.update_surround(-1, -1, &mut outside);
    game.update_surround(4, 4, &mut at_edge);
    assert_eq!(outside, at_edge);
    assert_eq!(at_edge, vec![6, 2, 1]);
}

#[test]
fn surround_of_three_states() {
    let mut game = Game::<BB>::new(5, 5, 500, 500).unwrap();
    game.cells[1][1].state = BB::Gray;
    game.cells[3][1].state = BB::Gray;
    game.cells[2][2].state = BB::Red;
    let mut surround = vec![9, 9, 9, 9, 9, 9];
    game.update_surround(2, 1, &mut surround);
    assert_eq!(surround, vec![5, 1, 2, 0]);
    game.update_surround(2, 2, &mut surround);
    assert_eq!(surround, vec![6, 0, 2, 1]);
    game.update_surround(1, 1, &mut surround);
    assert_eq!(surround, vec![7, 1, 0, 2]);
    assert_eq!(game.next_cell_state(2, 1, &mut surround), BB::Gray);
    assert_eq!(game.next_cell_state(2, 2, &mut surround), BB::White);
    assert_eq!(game.next_cell_state(1, 1, &mut surround), BB::Red);
}

#[test]
fn step_keeps_every_rectangle() {
    let mut game = life(7, 5, &[(1, 2), (2, 2), (3, 2), (6, 4), (0, 0)]);
    let before = rects(&game);
    game.next_state();
    assert_eq!(rects(&game), before);
    game.next_state_with(3);
    assert_eq!(rects(&game), before);
    game.clear();
    assert_eq!(rects(&game), before);
}

#[test]
fn blinker_returns_after_two_steps() {
    let row = [(1, 2), (2, 2), (3, 2)];
    let column = [(2, 1), (2, 2), (2, 3)];
    let mut game = life(5, 5, &row);
    game.next_state();
    assert_eq!(states(&game), life_states(5, 5, &column));
    game.next_state();
    assert_eq!(states(&game), life_states(5, 5, &row));
}

#[test]
fn full_row_on_three_by_three_torus() {
    let mut game = life(3, 3, &[(0, 1), (1, 1), (2, 1)]);
    game.next_state();
    assert_eq!(states(&game), vec![vec![Gol::Gray; 3]; 3]);
    game.next_state();
    assert_eq!(states(&game), vec![vec![Gol::White; 3]; 3]);
}

#[test]
fn life_block_is_still() {
    let block = [(1, 1), (1, 2), (2, 1), (2, 2)];
    let mut game = life(6, 6, &block);
    game.next_state();
    assert_eq!(states(&game), life_states(6, 6, &block));
}

#[test]
fn seeds_lone_cell_dies() {
    let mut game = Game::<Seeds>::new(5, 5, 500, 500).unwrap();
    game.cells[2][2].state = Seeds::Gray;
    game.next_state();
    assert_eq!(states(&game), vec![vec![Seeds::White; 5]; 5]);
}

#[test]
fn seeds_two_neighbors_give_birth() {
    let mut game = Game::<Seeds>::new(7, 7, 700, 700).unwrap();
    game.cells[2][3].state = Seeds::Gray;
    game.cells[4][3].state = Seeds::Gray;
    game.next_state();
    let mut want = vec![vec![Seeds::White; 7]; 7];
    want[3][2] = Seeds::Gray;
    want[3][3] = Seeds::Gray;
    want[3][4] = Seeds::Gray;
    assert_eq!(states(&game), want);
}

#[test]
fn brain_cell_cycles_regardless_of_neighbors() {
    let mut game = Game::<BB>::new(5, 5, 500, 500).unwrap();
    game.cells[2][2].state = BB::Gray;
    game.next_state();
    let mut want = vec![vec![BB::White; 5]; 5];
    want[2][2] = BB::Red;
    assert_eq!(states(&game), want);
    game.next_state();
    assert_eq!(states(&game), vec![vec![BB::White; 5]; 5]);
}

#[test]
fn brain_two_gray_neighbors_ignite() {
    let mut game = Game::<BB>::new(6, 6, 600, 600).unwrap();
    game.cells[1][1].state = BB::Gray;
    game.cells[2][1].state = BB::Gray;
    game.next_state();
    let mut want = vec![vec![BB::White; 6]; 6];
    want[1][1] = BB::Red;
    want[2][1] = BB::Red;
    want[1][0] = BB::Gray;
    want[2][0] = BB::Gray;
    want[1][2] = BB::Gray;
    want[2][2] = BB::Gray;
    assert_eq!(states(&game), want);
}

#[test]
fn clear_twice_is_clear_once() {
    let mut game = life(5, 4, &[(0, 0), (1, 2), (4, 3)]);
    let before = rects(&game);
    game.clear();
    let once = states(&game);
    assert_eq!(once, vec![vec![Gol::White; 4]; 5]);
    game.clear();
    assert_eq!(states(&game), once);
    assert_eq!(rects(&game), before);
}

#[test]
fn clear_after_steps() {
    let mut game = Game::<BB>::new(4, 4, 400, 400).unwrap();
    game.cells[1][1].state = BB::Gray;
    game.cells[2][1].state = BB::Red;
    game.next_state();
    game.clear();
    assert_eq!(states(&game), vec![vec![BB::White; 4]; 4]);
    game.next_state();
    assert_eq!(states(&game), vec![vec![BB::White; 4]; 4]);
}

fn glider_field() -> Game<Gol> {
    life(11, 9, &[(1, 0), (2, 1), (0, 2), (1, 2), (2, 2), (10, 8), (9, 8), (10, 0), (5, 5), (6, 5), (7, 5)])
}

#[test]
fn stripe_count_does_not_change_the_outcome() {
    let mut single = glider_field();
    for _ in 0..6 {
        single.next_state_with(1);
    }
    for workers in [1usize, 2, 4, 8, 3, 11, 12, 1000, usize::MAX] {
        let mut striped = glider_field();
        for _ in 0..6 {
            striped.next_state_with(workers);
        }
        assert_eq!(states(&striped), states(&single));
        assert_eq!(rects(&striped), rects(&single));
    }
}

#[test]
fn stripes_agree_for_three_states() {
    let mut seed = Game::<BB>::new(9, 7, 900, 700).unwrap();
    for x in 0..9 {
        for y in 0..7 {
            seed.cells[x][y].state = BB::from_ordinal((x * x + 3 * y + x * y) % 3);
        }
    }
    let start = states(&seed);
    seed.next_state_with(1);
    let want = states(&seed);
    assert_ne!(want, start);
    for workers in [1usize, 2, 4, 8] {
        let mut game = Game::<BB>::new(9, 7, 900, 700).unwrap();
        for x in 0..9 {
            for y in 0..7 {
                game.cells[x][y].state = start[x][y];
            }
        }
        game.next_state_with(workers);
        assert_eq!(states(&game), want);
    }
}

fn step_by_stripes<T: CellState>(game: &mut Game<T>, workers: usize) {
    let stripes: Vec<Vec<(usize, Vec<T>)>> =
        (0..workers).map(|t| game.next_stripe(t, workers)).collect();
    game.merge_stripes(&stripes);
}

#[test]
fn stripes_hold_their_columns_in_order() {
    let game = life(7, 3, &[(1, 1), (2, 1), (3, 1)]);
    let stripe = game.next_stripe(1, 3);
    let columns: Vec<usize> = stripe.iter().map(|entry| entry.0).collect();
    assert_eq!(columns, vec![1, 4]);
    assert_eq!(stripe[0].1, vec![Gol::White, Gol::White, Gol::White]);
    assert_eq!(stripe[1].1, vec![Gol::White, Gol::White, Gol::White]);
    let stripe = game.next_stripe(2, 3);
    assert_eq!(stripe.len(), 2);
    assert_eq!(stripe[0].0, 2);
    assert_eq!(stripe[0].1, vec![Gol::Gray, Gol::Gray, Gol::Gray]);
    assert_eq!(stripe[1].0, 5);
    let stripe = game.next_stripe(0, 3);
    let columns: Vec<usize> = stripe.iter().map(|entry| entry.0).collect();
    assert_eq!(columns, vec![0, 3, 6]);
    assert_eq!(game.next_stripe(7, 8).len(), 0);
    assert_eq!(game.next_stripe(6, 8).len(), 1);
    assert_eq!(game.next_stripe(0, 1).len(), 7);
    assert_eq!(game.next_stripe(3, usize::MAX).len(), 1);
}

#[test]
fn next_column_is_one_column_of_the_step() {
    let mut game = glider_field();
    let mut surround = Vec::new();
    let columns: Vec<Vec<Gol>> =
        (0..game.width()).map(|x| game.next_column(x, &mut surround)).collect();
    game.next_state_with(1);
    assert_eq!(states(&game), columns);
}

#[test]
fn set_column_replaces_one_column() {
    let mut game = life(4, 3, &[(0, 0), (1, 1)]);
    let before = rects(&game);
    game.set_column(1, &vec![Gol::Gray, Gol::White, Gol::Gray]);
    assert_eq!(states(&game), life_states(4, 3, &[(0, 0), (1, 0), (1, 2)]));
    assert_eq!(rects(&game), before);
}

#[test]
fn merged_stripes_are_the_step() {
    let mut single = glider_field();
    for _ in 0..5 {
        single.next_state_with(1);
    }
    for workers in [1usize, 2, 4, 8, 11, 16] {
        let mut striped = glider_field();
        let before = rects(&striped);
        for _ in 0..5 {
            step_by_stripes(&mut striped, workers);
        }
        assert_eq!(states(&striped), states(&single));
        assert_eq!(rects(&striped), before);
    }
}

#[test]
fn merged_stripes_agree_for_three_states() {
    let mut single = Game::<BB>::new(9, 7, 900, 700).unwrap();
    for x in 0..9 {
        for y in 0..7 {
            single.cells[x][y].state = BB::from_ordinal((x * x + 3 * y + x * y) % 3);
        }
    }
    let start = states(&single);
    single.next_state_with(1);
    for workers in [1usize, 2, 4, 8] {
        let mut game = Game::<BB>::new(9, 7, 900, 700).unwrap();
        for x in 0..9 {
            game.set_column(x, &start[x]);
        }
        step_by_stripes(&mut game, workers);
        assert_eq!(states(&game), states(&single));
    }
}

#[test]
fn machine_stripes_agree_with_one_stripe() {
    let mut single = glider_field();
    let mut machine = glider_field();
    for _ in 0..4 {
        single.next_state_with(1);
        machine.next_state();
        assert_eq!(states(&machine), states(&single));
    }
}

#[test]
fn paint_places_along_a_drag() {
    let mut game = Game::<Gol>::new(10, 10, 100, 100).unwrap();
    assert!(game.toggle_state(5, 5));
    assert_eq!(game.cells[0][0].state, Gol::Gray);
    assert!(game.toggle_state(15, 5));
    assert!(game.toggle_state(25, 5));
    assert!(game.toggle_state(35, 5));
    assert_eq!(game.cells[1][0].state, Gol::Gray);
    assert_eq!(game.cells[2][0].state, Gol::Gray);
    assert_eq!(game.cells[3][0].state, Gol::Gray);
    assert!(game.toggle_state(15, 5));
    assert_eq!(game.cells[1][0].state, Gol::Gray);
    assert!(game.toggle_state(5, 9));
    assert_eq!(game.cells[0][0].state, Gol::Gray);
    let mut want = vec![vec![Gol::White; 10]; 10];
    for x in 0..4 {
        want[x][0] = Gol::Gray;
    }
    assert_eq!(states(&game), want);
}

#[test]
fn paint_erases_along_a_drag() {
    let mut game = Game::<Gol>::new(10, 10, 100, 100).unwrap();
    for x in 0..4 {
        game.cells[x][2].state = Gol::Gray;
    }
    assert!(game.toggle_state(0, 20));
    assert_eq!(game.cells[0][2].state, Gol::White);
    assert!(game.toggle_state(10, 29));
    assert!(game.toggle_state(29, 20));
    assert!(game.toggle_state(39, 29));
    assert_eq!(game.cells[1][2].state, Gol::White);
    assert_eq!(game.cells[2][2].state, Gol::White);
    assert_eq!(game.cells[3][2].state, Gol::White);
    assert!(game.toggle_state(10, 20));
    assert_eq!(game.cells[1][2].state, Gol::White);
    assert_eq!(states(&game), vec![vec![Gol::White; 10]; 10]);
}

#[test]
fn paint_mode_is_latched_until_release() {
    let mut game = Game::<Gol>::new(10, 10, 100, 100).unwrap();
    game.cells[1][0].state = Gol::Gray;
    assert!(game.toggle_state(5, 5));
    assert!(game.toggle_state(15, 5));
    assert_eq!(game.cells[0][0].state, Gol::Gray);
    assert_eq!(game.cells[1][0].state, Gol::Gray);
    game.release();
    assert!(game.toggle_state(15, 5));
    assert_eq!(game.cells[1][0].state, Gol::White);
    assert!(game.toggle_state(5, 5));
    assert_eq!(game.cells[0][0].state, Gol::White);
    game.release();
    game.release();
    assert!(game.toggle_state(5, 5));
    assert_eq!(game.cells[0][0].state, Gol::Gray);
}

#[test]
fn paint_latches_the_next_state_of_three() {
    let mut game = Game::<BB>::new(4, 4, 40, 40).unwrap();
    game.cells[0][0].state = BB::Gray;
    assert!(game.toggle_state(1, 1));
    assert_eq!(game.cells[0][0].state, BB::Red);
    assert!(game.toggle_state(11, 1));
    assert_eq!(game.cells[1][0].state, BB::Red);
    assert!(game.toggle_state(1, 1));
    assert_eq!(game.cells[0][0].state, BB::Red);
}

#[test]
fn paint_off_the_grid_is_a_no_op() {
    let mut game = Game::<Gol>::new(10, 5, 200, 100).unwrap();
    assert_eq!(game.cells[0][0].rect, Rect { x: 50, y: 25, w: 10, h: 10 });
    let before = states(&game);
    assert!(!game.toggle_state(49, 30));
    assert!(!game.toggle_state(41, 30));
    assert!(!game.toggle_state(50, 24));
    assert!(!game.toggle_state(150, 30));
    assert!(!game.toggle_state(60, 75));
    assert!(!game.toggle_state(-1, -1));
    assert!(!game.toggle_state(i32::MIN, i32::MIN));
    assert!(!game.toggle_state(i32::MAX, i32::MAX));
    assert!(!game.toggle_state(i32::MIN, 30));
    assert_eq!(states(&game), before);
    game.cells[0][0].state = Gol::Gray;
    assert!(game.toggle_state(50, 25));
    assert_eq!(game.cells[0][0].state, Gol::White);
    game.release();
    assert!(game.toggle_state(149, 74));
    assert_eq!(game.cells[9][4].state, Gol::Gray);
}

#[test]
fn apply_input_paints_while_active_and_releases_after() {
    let mut game = Game::<Gol>::new(10, 10, 100, 100).unwrap();
    assert!(game.apply_input(5, 5, true));
    assert!(game.apply_input(15, 5, true));
    assert!(!game.apply_input(500, 5, true));
    assert!(!game.apply_input(15, 5, false));
    assert_eq!(game.cells[0][0].state, Gol::Gray);
    assert_eq!(game.cells[1][0].state, Gol::Gray);
    assert!(!game.apply_input(15, 5, false));
    assert!(game.apply_input(15, 5, true));
    assert_eq!(game.cells[1][0].state, Gol::White);
    assert!(game.apply_input(5, 5, true));
    assert_eq!(game.cells[0][0].state, Gol::White);
}

#[test]
fn step_on_a_single_cell_grid() {
    let mut game = life(1, 1, &[(0, 0)]);
    let mut surround = Vec::new();
    game.update_surround(0, 0, &mut surround);
    assert_eq!(surround, vec![0, 8, 1]);
    game.next_state();
    assert_eq!(states(&game), vec![vec![Gol::White]]);
}
