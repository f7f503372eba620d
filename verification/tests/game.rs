use tictactoe::{cell_text, Game, Mark, MoveError, Outcome};

/// Plays `moves` in order on a fresh game with `first` to move, expecting
/// every move to succeed.
fn play(first: Mark, moves: &[usize]) -> Game {
    let mut g = Game::new(first);
    for &p in moves {
        assert_eq!(g.attempt_move(p), Ok(()));
    }
    g
}

fn count_occupied(g: &Game) -> usize {
    let mut n = 0;
    for p in 0..9 {
        if g.cell(p).is_some() {
            n += 1;
        }
    }
    n
}

#[test]
fn fresh_game_is_empty_and_open() {
    let g = Game::new(Mark::X);
    assert_eq!(g.outcome(), Outcome::InProgress);
    assert_eq!(g.turn, Mark::X);
    for p in 0..9 {
        assert_eq!(g.cell(p), None);
    }
    assert_eq!(g.legal_moves(), vec![0, 1, 2, 3, 4, 5, 6, 7, 8]);
}

#[test]
fn first_mover_is_configurable_and_defaults_to_x() {
    let g = Game::new(Mark::O);
    assert_eq!(g.turn, Mark::O);
    let d = Game::default();
    assert_eq!(d.turn, Mark::X);
    assert_eq!(d.outcome(), Outcome::InProgress);
}

#[test]
fn every_position_accepts_one_first_move_then_rejects_a_second() {
    for p in 0..9 {
        let mut g = Game::new(Mark::X);
        assert!(g.legal_moves().contains(&p));
        assert_eq!(g.attempt_move(p), Ok(()));
        assert_eq!(g.cell(p), Some(Mark::X));
        assert_eq!(g.attempt_move(p), Err(MoveError::CellOccupied));
        assert_eq!(g.cell(p), Some(Mark::X));
    }
}

#[test]
fn out_of_bounds_is_rejected_in_any_state() {
    let mut g = Game::new(Mark::X);
    assert_eq!(g.attempt_move(9), Err(MoveError::OutOfBounds));
    assert_eq!(g.attempt_move(100), Err(MoveError::OutOfBounds));
    assert_eq!(g.attempt_move(usize::MAX), Err(MoveError::OutOfBounds));
    // Still rejected once the game is over, taking precedence over GameOver.
    let mut won = play(Mark::X, &[0, 3, 1, 4, 2]);
    assert_eq!(won.attempt_move(9), Err(MoveError::OutOfBounds));
}

#[test]
fn turn_flips_to_the_mark_that_did_not_move() {
    let mut g = Game::new(Mark::X);
    assert_eq!(g.attempt_move(4), Ok(()));
    assert_eq!(g.turn, Mark::O);
    assert_eq!(g.attempt_move(0), Ok(()));
    assert_eq!(g.turn, Mark::X);
}

#[test]
fn row_win_for_x() {
    let g = play(Mark::X, &[0, 3, 1, 4, 2]);
    assert_eq!(g.outcome(), Outcome::Won(Mark::X));
}

#[test]
fn diagonal_win_for_x() {
    let g = play(Mark::X, &[0, 1, 4, 2, 8]);
    assert_eq!(g.outcome(), Outcome::Won(Mark::X));
}

#[test]
fn full_board_with_no_line_is_a_draw() {
    // X: 0, 2, 3, 7, 8   O: 1, 4, 5, 6 — no line for either mark.
    let g = play(Mark::X, &[0, 1, 2, 4, 3, 5, 7, 6, 8]);
    assert_eq!(g.outcome(), Outcome::Draw);
    assert_eq!(g.legal_moves(), Vec::<usize>::new());
}

#[test]
fn column_win_ends_the_game_before_the_board_fills() {
    // O takes 1, 4 and 7: the middle column is complete on the 8th move,
    // so the would-be 9th move is rejected.
    let mut g = play(Mark::X, &[0, 1, 2, 4, 3, 6, 5, 7]);
    assert_eq!(g.outcome(), Outcome::Won(Mark::O));
    assert_eq!(g.attempt_move(8), Err(MoveError::GameOver));
}

#[test]
fn terminal_game_rejects_every_position_unchanged() {
    let mut g = play(Mark::X, &[0, 3, 1, 4, 2]);
    assert_eq!(g.outcome(), Outcome::Won(Mark::X));
    let before: Vec<Option<Mark>> = (0..9).map(|p| g.cell(p)).collect();
    for p in 0..9 {
        assert_eq!(g.attempt_move(p), Err(MoveError::GameOver));
    }
    assert_eq!(g.outcome(), Outcome::Won(Mark::X));
    let after: Vec<Option<Mark>> = (0..9).map(|p| g.cell(p)).collect();
    assert_eq!(before, after);
}

#[test]
fn second_move_on_the_centre_cell_is_rejected_and_keeps_x() {
    let mut g = Game::new(Mark::X);
    assert_eq!(g.attempt_move(4), Ok(()));
    assert_eq!(g.attempt_move(4), Err(MoveError::CellOccupied));
    assert_eq!(g.cell(4), Some(Mark::X));
}

#[test]
fn legal_moves_and_occupied_cells_always_cover_the_board() {
    let mut g = Game::new(Mark::X);
    assert_eq!(g.legal_moves().len() + count_occupied(&g), 9);
    for &p in &[4, 0, 8, 2, 6] {
        assert_eq!(g.attempt_move(p), Ok(()));
        assert_eq!(g.legal_moves().len() + count_occupied(&g), 9);
    }
}

#[test]
fn legal_moves_lists_exactly_the_empty_cells_in_order() {
    let mut g = Game::new(Mark::X);
    assert_eq!(g.attempt_move(4), Ok(()));
    assert_eq!(g.legal_moves(), vec![0, 1, 2, 3, 5, 6, 7, 8]);
    assert_eq!(g.attempt_move(0), Ok(()));
    assert_eq!(g.legal_moves(), vec![1, 2, 3, 5, 6, 7, 8]);
}

#[test]
fn cell_text_shows_the_mark_or_nothing() {
    assert_eq!(cell_text(Some(Mark::X)), "X");
    assert_eq!(cell_text(Some(Mark::O)), "O");
    assert_eq!(cell_text(None), "");
}

#[test]
fn other_swaps_the_marks() {
    assert_eq!(Mark::X.other(), Mark::O);
    assert_eq!(Mark::O.other(), Mark::X);
}
