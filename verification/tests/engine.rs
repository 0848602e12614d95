use game_of_life::grid::{GameOfLife, GridError};
use game_of_life::torus::{next_cell, wrap_back, wrap_forward};

fn board(width: usize, height: usize, alive: &[(usize, usize)]) -> GameOfLife {
    let mut game = GameOfLife::blank(width, height).unwrap();
    for &(x, y) in alive {
        game.set_cell(x, y, true).unwrap();
    }
    game
}

fn live_cells(game: &GameOfLife) -> Vec<(usize, usize)> {
    let mut found = Vec::new();
    for x in 0..game.width() {
        for y in 0..game.height() {
            if game.cell_state(x, y).unwrap() {
                found.push((x, y));
            }
        }
    }
    found
}

#[test]
fn blank_board_has_the_size_asked_for_and_no_life() {
    let game = GameOfLife::blank(7, 4).unwrap();
    assert_eq!(game.width(), 7);
    assert_eq!(game.height(), 4);
    assert_eq!(live_cells(&game), vec![]);
}

#[test]
fn blank_refuses_zero_width() {
    assert_eq!(GameOfLife::blank(0, 5).unwrap_err(), GridError::InvalidDimension);
}

#[test]
fn blank_refuses_zero_height() {
    assert_eq!(GameOfLife::blank(5, 0).unwrap_err(), GridError::InvalidDimension);
}

#[test]
fn new_refuses_zero_dimensions() {
    assert_eq!(GameOfLife::new(0, 3).unwrap_err(), GridError::InvalidDimension);
    assert_eq!(GameOfLife::new(3, 0).unwrap_err(), GridError::InvalidDimension);
    assert_eq!(GameOfLife::new(0, 0).unwrap_err(), GridError::InvalidDimension);
}

#[test]
fn new_gives_the_size_asked_for_every_time() {
    for _ in 0..10 {
        let game = GameOfLife::new(150, 20).unwrap();
        assert_eq!(game.width(), 150);
        assert_eq!(game.height(), 20);
        assert!(game.cell_state(149, 19).is_ok());
        assert_eq!(game.cell_state(150, 0), Err(GridError::IndexError));
        assert_eq!(game.cell_state(0, 20), Err(GridError::IndexError));
    }
}

#[test]
fn new_draws_both_live_and_dead_cells() {
    let game = GameOfLife::new(64, 64).unwrap();
    let alive = live_cells(&game).len();
    assert!(alive > 0);
    assert!(alive < 64 * 64);
}

#[test]
fn randomize_grid_keeps_the_size() {
    let mut game = GameOfLife::blank(64, 32).unwrap();
    game.randomize_grid();
    assert_eq!(game.width(), 64);
    assert_eq!(game.height(), 32);
    let alive = live_cells(&game).len();
    assert!(alive > 0);
    assert!(alive < 64 * 32);
}

#[test]
fn cell_state_reads_what_set_cell_wrote() {
    let mut game = GameOfLife::blank(3, 2).unwrap();
    assert_eq!(game.cell_state(2, 1), Ok(false));
    assert_eq!(game.set_cell(2, 1, true), Ok(()));
    assert_eq!(game.cell_state(2, 1), Ok(true));
    assert_eq!(game.is_alive(2, 1), true);
    assert_eq!(live_cells(&game), vec![(2, 1)]);
    assert_eq!(game.set_cell(2, 1, false), Ok(()));
    assert_eq!(game.cell_state(2, 1), Ok(false));
    assert_eq!(game.is_alive(2, 1), false);
}

#[test]
fn cell_state_outside_the_board_is_an_index_error() {
    let game = GameOfLife::blank(3, 2).unwrap();
    assert_eq!(game.cell_state(3, 0), Err(GridError::IndexError));
    assert_eq!(game.cell_state(0, 2), Err(GridError::IndexError));
    assert_eq!(game.cell_state(usize::MAX, usize::MAX), Err(GridError::IndexError));
}

#[test]
fn set_cell_outside_the_board_changes_nothing() {
    let mut game = board(3, 2, &[(1, 1)]);
    assert_eq!(game.set_cell(3, 1, true), Err(GridError::IndexError));
    assert_eq!(game.set_cell(1, 2, true), Err(GridError::IndexError));
    assert_eq!(live_cells(&game), vec![(1, 1)]);
}

#[test]
fn rule_for_a_live_cell() {
    let expected = [false, false, true, true, false, false, false, false, false];
    for n in 0..=8 {
        assert_eq!(next_cell(true, n), expected[n as usize]);
    }
}

#[test]
fn rule_for_a_dead_cell() {
    let expected = [false, false, false, true, false, false, false, false, false];
    for n in 0..=8 {
        assert_eq!(next_cell(false, n), expected[n as usize]);
    }
}

#[test]
fn wrap_back_and_forward_on_an_axis() {
    assert_eq!(wrap_back(0, 5), 4);
    assert_eq!(wrap_back(3, 5), 2);
    assert_eq!(wrap_forward(4, 5), 0);
    assert_eq!(wrap_forward(2, 5), 3);
    assert_eq!(wrap_back(0, 1), 0);
    assert_eq!(wrap_forward(0, 1), 0);
}

#[test]
fn all_dead_board_stays_dead() {
    let mut game = board(3, 3, &[]);
    game.update_game();
    assert_eq!(live_cells(&game), vec![]);
    assert_eq!(game.width(), 3);
    assert_eq!(game.height(), 3);
}

#[test]
fn single_live_cell_dies() {
    let mut game = board(3, 3, &[(1, 1)]);
    assert_eq!(game.check_neighbours(1, 1), 0);
    game.update_game();
    assert_eq!(live_cells(&game), vec![]);
}

#[test]
fn block_is_a_still_life() {
    let block = [(4, 4), (4, 5), (5, 4), (5, 5)];
    let mut game = board(10, 10, &block);
    for &(x, y) in &block {
        assert_eq!(game.check_neighbours(x, y), 3);
    }
    assert_eq!(game.check_neighbours(3, 3), 1);
    assert_eq!(game.check_neighbours(3, 4), 2);
    for _ in 0..5 {
        game.update_game();
        assert_eq!(live_cells(&game), block.to_vec());
    }
}

#[test]
fn blinker_has_period_two() {
    let horizontal = vec![(1, 2), (2, 2), (3, 2)];
    let vertical = vec![(2, 1), (2, 2), (2, 3)];
    let mut game = board(5, 5, &horizontal);
    game.update_game();
    assert_eq!(live_cells(&game), vertical);
    game.update_game();
    assert_eq!(live_cells(&game), horizontal);
    game.update_game();
    assert_eq!(live_cells(&game), vertical);
}

#[test]
fn opposite_corners_count_each_other() {
    for &(w, h) in &[(4usize, 3usize), (3, 7), (10, 10), (3, 3), (150, 20)] {
        let far = board(w, h, &[(w - 1, h - 1)]);
        assert_eq!(far.check_neighbours(0, 0), 1);
        let near = board(w, h, &[(0, 0)]);
        assert_eq!(near.check_neighbours(w - 1, h - 1), 1);
    }
}

#[test]
fn corners_on_a_narrow_board_are_counted_once_for_each_offset() {
    // Two columns: the column to the left is also the column to the right.
    let far = board(2, 7, &[(1, 6)]);
    assert_eq!(far.check_neighbours(0, 0), 2);
    let near = board(2, 7, &[(0, 0)]);
    assert_eq!(near.check_neighbours(1, 6), 2);
    // Two by two: all four diagonal offsets reach the opposite corner.
    let small = board(2, 2, &[(1, 1)]);
    assert_eq!(small.check_neighbours(0, 0), 4);
    // One column: the corner above is reached by three offsets.
    let thin = board(1, 4, &[(0, 3)]);
    assert_eq!(thin.check_neighbours(0, 0), 3);
}

#[test]
fn edges_wrap_on_both_axes() {
    let game = board(5, 4, &[(4, 2), (2, 3)]);
    assert_eq!(game.check_neighbours(0, 2), 1);
    assert_eq!(game.check_neighbours(0, 1), 1);
    assert_eq!(game.check_neighbours(0, 3), 1);
    assert_eq!(game.check_neighbours(2, 0), 1);
    assert_eq!(game.check_neighbours(1, 0), 1);
    assert_eq!(game.check_neighbours(3, 0), 1);
    assert_eq!(game.check_neighbours(3, 3), 2);
    assert_eq!(game.check_neighbours(2, 1), 0);
}

#[test]
fn check_neighbours_counts_all_eight() {
    let mut game = GameOfLife::blank(3, 3).unwrap();
    for x in 0..3 {
        for y in 0..3 {
            game.set_cell(x, y, true).unwrap();
        }
    }
    assert_eq!(game.check_neighbours(1, 1), 8);
    assert_eq!(game.check_neighbours(0, 0), 8);
    game.update_game();
    assert_eq!(live_cells(&game), vec![]);
}

#[test]
fn single_cell_board_counts_itself_eight_times() {
    let mut game = board(1, 1, &[(0, 0)]);
    assert_eq!(game.check_neighbours(0, 0), 8);
    game.update_game();
    assert_eq!(game.cell_state(0, 0), Ok(false));
    assert_eq!(game.check_neighbours(0, 0), 0);
    game.update_game();
    assert_eq!(game.cell_state(0, 0), Ok(false));
}

#[test]
fn one_column_board_steps() {
    let mut game = board(1, 5, &[(0, 2)]);
    assert_eq!(game.check_neighbours(0, 2), 2);
    assert_eq!(game.check_neighbours(0, 1), 3);
    assert_eq!(game.check_neighbours(0, 3), 3);
    assert_eq!(game.check_neighbours(0, 0), 0);
    game.update_game();
    assert_eq!(live_cells(&game), vec![(0, 1), (0, 2), (0, 3)]);
    assert_eq!(game.width(), 1);
    assert_eq!(game.height(), 5);
}

#[test]
fn one_row_board_steps() {
    let mut game = board(5, 1, &[(2, 0)]);
    assert_eq!(game.check_neighbours(2, 0), 2);
    assert_eq!(game.check_neighbours(1, 0), 3);
    assert_eq!(game.check_neighbours(3, 0), 3);
    assert_eq!(game.check_neighbours(4, 0), 0);
    game.update_game();
    assert_eq!(live_cells(&game), vec![(1, 0), (2, 0), (3, 0)]);
    assert_eq!(game.width(), 5);
    assert_eq!(game.height(), 1);
}

#[test]
fn random_one_wide_and_one_high_boards_step() {
    let mut tall = GameOfLife::new(1, 9).unwrap();
    let mut wide = GameOfLife::new(9, 1).unwrap();
    let mut dot = GameOfLife::new(1, 1).unwrap();
    for _ in 0..4 {
        tall.update_game();
        wide.update_game();
        dot.update_game();
    }
    assert_eq!((tall.width(), tall.height()), (1, 9));
    assert_eq!((wide.width(), wide.height()), (9, 1));
    assert_eq!(live_cells(&dot), vec![]);
}

#[test]
fn same_board_gives_the_same_generations() {
    let start = GameOfLife::new(20, 12).unwrap();
    let cells = live_cells(&start);
    let mut first = board(20, 12, &cells);
    let mut second = board(20, 12, &cells);
    for _ in 0..6 {
        first.update_game();
        second.update_game();
        assert_eq!(live_cells(&first), live_cells(&second));
        assert_eq!(first.frame(), second.frame());
    }
}

#[test]
fn next_generation_reads_only_the_old_board() {
    // A glider's next generation, which an update in place would spoil.
    let mut game = board(6, 6, &[(1, 0), (2, 1), (0, 2), (1, 2), (2, 2)]);
    game.update_game();
    assert_eq!(live_cells(&game), vec![(0, 1), (1, 2), (1, 3), (2, 1), (2, 2)]);
}

#[test]
fn frame_shows_rows_then_moves_the_cursor_up() {
    let game = board(3, 2, &[(0, 0), (2, 1)]);
    assert_eq!(game.frame(), "*--\n--*\n\x1b[1A\x1b[1A");
}

#[test]
fn frame_of_a_single_cell() {
    assert_eq!(board(1, 1, &[]).frame(), "-\n\x1b[1A");
    assert_eq!(board(1, 1, &[(0, 0)]).frame(), "*\n\x1b[1A");
}
