use tic_tac_toe::board::{Cell, Player};
use tic_tac_toe::game::Game;

#[test]
fn fresh_game_is_not_full_and_has_no_winner() {
    let g = Game::new(Player::X);
    assert!(!g.is_full());
    assert_eq!(g.check_winner(), None);
    for i in 0..9 {
        assert_eq!(g.cell_at(i), Cell::Empty);
    }
}

#[test]
fn toggle_alternates_between_the_two_marks() {
    assert_eq!(Player::X.toggle(), Player::O);
    assert_eq!(Player::O.toggle(), Player::X);
    assert_eq!(Player::X.toggle().toggle(), Player::X);
}

#[test]
fn from_char_recognizes_the_two_designators() {
    assert_eq!(Player::from_char('X'), Some(Player::X));
    assert_eq!(Player::from_char('O'), Some(Player::O));
    assert_eq!(Player::from_char('Z'), None);
    assert_eq!(Player::from_char('x'), None);
    assert_eq!(Player::from_char(' '), None);
}

#[test]
fn active_mark_alternates_after_each_successful_placement() {
    let mut g = Game::new(Player::X);
    assert_eq!(g.active_mark(), Player::X);
    assert!(g.play_move(0, 0));
    assert_eq!(g.active_mark(), Player::O);
    assert!(g.play_move(1, 1));
    assert_eq!(g.active_mark(), Player::X);
    assert!(g.play_move(2, 2));
    assert_eq!(g.active_mark(), Player::O);
}

#[test]
fn placed_mark_is_the_mark_active_before_the_placement() {
    let mut g = Game::new(Player::O);
    assert_eq!(g.active_mark(), Player::O);
    assert!(g.play_move(1, 2));
    assert_eq!(g.cell_at(1 * 3 + 2), Cell::Taken(Player::O));
    assert!(g.play_move(2, 0));
    assert_eq!(g.cell_at(2 * 3 + 0), Cell::Taken(Player::X));
}

#[test]
fn placing_on_an_occupied_cell_fails_and_changes_nothing() {
    let mut g = Game::new(Player::X);
    assert!(g.play_move(0, 0));
    let cells_before: Vec<Cell> = (0..9).map(|i| g.cell_at(i)).collect();
    let active_before = g.active_mark();

    // The same move is refused twice in a row, and the state stays
    // byte-for-byte identical both times.
    assert!(!g.play_move(0, 0));
    let cells_after_first: Vec<Cell> = (0..9).map(|i| g.cell_at(i)).collect();
    assert_eq!(cells_after_first, cells_before);
    assert_eq!(g.active_mark(), active_before);

    assert!(!g.play_move(0, 0));
    let cells_after_second: Vec<Cell> = (0..9).map(|i| g.cell_at(i)).collect();
    assert_eq!(cells_after_second, cells_before);
    assert_eq!(g.active_mark(), active_before);
}

#[test]
fn out_of_range_coordinates_are_refused_without_mutation() {
    let mut g = Game::new(Player::X);
    assert!(!g.play_move(3, 0));
    assert!(!g.play_move(0, 3));
    assert!(!g.play_move(7, 7));
    assert_eq!(g.active_mark(), Player::X);
    for i in 0..9 {
        assert_eq!(g.cell_at(i), Cell::Empty);
    }
}

#[test]
fn top_row_of_x_wins_before_the_board_is_full() {
    let mut g = Game::new(Player::X);
    assert!(g.play_move(0, 0)); // X
    assert!(g.play_move(1, 1)); // O
    assert!(g.play_move(0, 1)); // X
    assert!(g.play_move(1, 0)); // O
    assert!(g.play_move(0, 2)); // X completes the top row
    assert_eq!(g.check_winner(), Some(Player::X));
    assert!(!g.is_full());
}

#[test]
fn full_board_without_a_line_is_a_draw() {
    // Final pattern, with correct alternation starting from X:
    //   X O X
    //   X O X
    //   O X O
    let mut g = Game::new(Player::X);
    assert!(g.play_move(0, 0)); // X
    assert!(g.play_move(0, 1)); // O
    assert!(g.play_move(0, 2)); // X
    assert!(g.play_move(1, 1)); // O
    assert!(g.play_move(1, 0)); // X
    assert!(g.play_move(2, 0)); // O
    assert!(g.play_move(1, 2)); // X
    assert!(g.play_move(2, 2)); // O
    assert!(g.play_move(2, 1)); // X
    assert!(g.is_full());
    assert_eq!(g.check_winner(), None);
}

#[test]
fn winner_survives_further_marks_on_other_cells() {
    let mut g = Game::new(Player::X);
    assert!(g.play_move(0, 0)); // X
    assert!(g.play_move(1, 1)); // O
    assert!(g.play_move(0, 1)); // X
    assert!(g.play_move(1, 0)); // O
    assert!(g.play_move(0, 2)); // X wins the top row
    assert_eq!(g.check_winner(), Some(Player::X));
    // The engine does not lock a finished board; adding marks elsewhere
    // must not change the reported winner.
    assert!(g.play_move(2, 2)); // O
    assert_eq!(g.check_winner(), Some(Player::X));
    assert!(g.play_move(2, 0)); // X
    assert_eq!(g.check_winner(), Some(Player::X));
}

#[test]
fn columns_and_diagonals_win_too() {
    // Left column for O.
    let mut g = Game::new(Player::O);
    assert!(g.play_move(0, 0)); // O
    assert!(g.play_move(0, 1)); // X
    assert!(g.play_move(1, 0)); // O
    assert!(g.play_move(1, 1)); // X
    assert!(g.play_move(2, 0)); // O completes the left column
    assert_eq!(g.check_winner(), Some(Player::O));

    // Main diagonal for X.
    let mut g = Game::new(Player::X);
    assert!(g.play_move(0, 0)); // X
    assert!(g.play_move(0, 1)); // O
    assert!(g.play_move(1, 1)); // X
    assert!(g.play_move(0, 2)); // O
    assert!(g.play_move(2, 2)); // X completes the diagonal
    assert_eq!(g.check_winner(), Some(Player::X));

    // Anti-diagonal for X.
    let mut g = Game::new(Player::X);
    assert!(g.play_move(0, 2)); // X
    assert!(g.play_move(0, 0)); // O
    assert!(g.play_move(1, 1)); // X
    assert!(g.play_move(1, 0)); // O
    assert!(g.play_move(2, 0)); // X completes the anti-diagonal
    assert_eq!(g.check_winner(), Some(Player::X));
}

#[test]
fn almost_full_board_is_not_full() {
    let mut g = Game::new(Player::X);
    assert!(g.play_move(0, 0)); // X
    assert!(g.play_move(0, 1)); // O
    assert!(g.play_move(0, 2)); // X
    assert!(g.play_move(1, 1)); // O
    assert!(g.play_move(1, 0)); // X
    assert!(g.play_move(2, 0)); // O
    assert!(g.play_move(1, 2)); // X
    assert!(g.play_move(2, 2)); // O
    assert!(!g.is_full());
}

#[test]
fn initialize_accepts_the_two_designators() {
    let g = Game::initialize('X');
    assert_eq!(g.active_mark(), Player::X);
    let g = Game::initialize('O');
    assert_eq!(g.active_mark(), Player::O);
}

#[test]
fn initialize_falls_back_to_x_on_an_invalid_designator() {
    let g = Game::initialize('Z');
    assert_eq!(g.active_mark(), Player::X);
    let g = Game::initialize('o');
    assert_eq!(g.active_mark(), Player::X);
    for i in 0..9 {
        assert_eq!(g.cell_at(i), Cell::Empty);
    }
}
