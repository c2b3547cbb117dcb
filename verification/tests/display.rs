use tic_tac_toe::board::Player;
use tic_tac_toe::game::Game;

#[test]
fn marks_display_as_their_characters() {
    assert_eq!(Player::X.to_char(), 'X');
    assert_eq!(Player::O.to_char(), 'O');
}

#[test]
fn empty_board_renders_as_three_blank_rows() {
    let g = Game::new(Player::X);
    assert_eq!(g.render(), "  |   |  \n  |   |  \n  |   |  \n");
}

#[test]
fn rendered_rows_show_the_placed_marks_in_place() {
    let mut g = Game::new(Player::X);
    assert!(g.play_move(0, 0)); // X
    assert!(g.play_move(1, 1)); // O
    assert!(g.play_move(2, 2)); // X
    assert_eq!(g.render(), "X |   |  \n  | O |  \n  |   | X\n");
}

#[test]
fn rendering_does_not_change_the_board() {
    let mut g = Game::new(Player::X);
    assert!(g.play_move(0, 1));
    let first = g.render();
    let second = g.render();
    assert_eq!(first, second);
    assert_eq!(g.active_mark(), Player::O);
}
