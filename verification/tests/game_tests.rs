use tic_tac_toe::{
    Board, Cell, Command, GameState, Player, Status, StepReport, interpret, render_board,
    starting_player_randomizer, switch_player,
};

#[test]
fn switch_player_toggles() {
    assert_eq!(switch_player(Player::X), Player::O);
    assert_eq!(switch_player(Player::O), Player::X);
}

#[test]
fn starting_player_is_one_of_the_two() {
    let p = starting_player_randomizer();
    assert!(p == Player::X || p == Player::O);
}

#[test]
fn undo_restores_board_after_placement() {
    let mut g = GameState::new(Player::X);
    assert_eq!(g.step(Command::PlaceAt(1, 2)), StepReport::Placed);
    assert_eq!(g.board().cell(1, 2), Cell::Marked(Player::X));
    assert_eq!(g.moves_len(), 1);
    assert_eq!(g.step(Command::Undo), StepReport::MoveUndone);
    assert_eq!(g.board().cell(1, 2), Cell::Empty);
    assert_eq!(g.moves_len(), 0);
    for r in 0..3usize {
        for c in 0..3usize {
            assert_eq!(g.board().cell(r, c), Cell::Empty);
        }
    }
    // The turn is not restored by an undo: it stays with the player whose
    // turn it had become.
    assert_eq!(g.current_player(), Player::O);
}

#[test]
fn undo_on_empty_history_changes_nothing() {
    let mut g = GameState::new(Player::X);
    assert_eq!(g.step(Command::Undo), StepReport::NothingToUndo);
    assert_eq!(g.current_player(), Player::X);
    assert_eq!(g.status(), Status::Ongoing);
    assert_eq!(g.moves_len(), 0);
    for r in 0..3usize {
        for c in 0..3usize {
            assert_eq!(g.board().cell(r, c), Cell::Empty);
        }
    }
}

#[test]
fn turn_alternates_on_success_only() {
    let mut g = GameState::new(Player::O);
    assert_eq!(g.current_player(), Player::O);
    assert_eq!(g.step(Command::PlaceAt(0, 0)), StepReport::Placed);
    assert_eq!(g.current_player(), Player::X);
    // Rejected commands leave the turn alone.
    assert_eq!(g.step(Command::PlaceAt(0, 0)), StepReport::RejectedOccupied);
    assert_eq!(g.current_player(), Player::X);
    assert_eq!(g.step(Command::PlaceAt(4, 0)), StepReport::RejectedOutOfRange);
    assert_eq!(g.current_player(), Player::X);
    assert_eq!(g.step(Command::Invalid), StepReport::RejectedMalformed);
    assert_eq!(g.current_player(), Player::X);
    // So does an undo.
    assert_eq!(g.step(Command::Undo), StepReport::MoveUndone);
    assert_eq!(g.current_player(), Player::X);
    assert_eq!(g.step(Command::PlaceAt(1, 1)), StepReport::Placed);
    assert_eq!(g.current_player(), Player::O);
}

#[test]
fn draw_after_nine_non_winning_placements() {
    let mut g = GameState::new(Player::X);
    // Ends as X X O / O O X / X X O with no completed line on the way.
    let moves = [
        (0, 0), // X
        (0, 2), // O
        (0, 1), // X
        (1, 0), // O
        (1, 2), // X
        (1, 1), // O
        (2, 0), // X
        (2, 2), // O
        (2, 1), // X
    ];
    for (n, &(r, c)) in moves.iter().enumerate() {
        assert!(!g.begin_turn(), "no draw before move {}", n + 1);
        assert_eq!(g.step(Command::PlaceAt(r, c)), StepReport::Placed);
    }
    assert_eq!(g.moves_len(), 9);
    // The next iteration opens by declaring the draw, before any prompt.
    assert!(g.begin_turn());
    assert_eq!(g.status(), Status::Draw);
}

#[test]
fn x_wins_top_row_on_fifth_move() {
    let mut g = GameState::new(Player::X);
    assert_eq!(g.step(Command::PlaceAt(0, 0)), StepReport::Placed); // X
    assert_eq!(g.step(Command::PlaceAt(1, 1)), StepReport::Placed); // O
    assert_eq!(g.step(Command::PlaceAt(0, 1)), StepReport::Placed); // X
    assert_eq!(g.step(Command::PlaceAt(2, 2)), StepReport::Placed); // O
    assert_eq!(g.step(Command::PlaceAt(0, 2)), StepReport::PlacedAndWon); // X
    assert_eq!(g.status(), Status::Won(Player::X));
    assert!(g.board().check_winner(Player::X));
    assert!(!g.board().check_winner(Player::O));
    assert_eq!(g.current_player(), Player::X);
}

#[test]
fn rejected_input_leaves_game_unchanged() {
    let mut g = GameState::new(Player::X);
    for line in ["5 1", "a b", "1 2 3", ""] {
        assert_eq!(g.step(interpret(line)), StepReport::RejectedMalformed);
        assert_eq!(g.current_player(), Player::X);
        assert_eq!(g.status(), Status::Ongoing);
        assert_eq!(g.moves_len(), 0);
    }
    assert_eq!(g.step(interpret("undo")), StepReport::NothingToUndo);
    assert_eq!(g.current_player(), Player::X);
    assert_eq!(g.status(), Status::Ongoing);
}

#[test]
fn render_empty_board() {
    let b = Board::new();
    let expected =
        "\n     -------\n     | | | |\n     -------\n     | | | |\n     -------\n     | | | |\n     -------\n\n";
    assert_eq!(render_board(&b), expected);
}

#[test]
fn render_marked_board() {
    let mut b = Board::new();
    assert_eq!(b.place(0, 0, Player::X), Ok(()));
    assert_eq!(b.place(1, 1, Player::O), Ok(()));
    assert_eq!(b.place(2, 0, Player::X), Ok(()));
    let expected =
        "\n     -------\n     |X| | |\n     -------\n     | |O| |\n     -------\n     |X| | |\n     -------\n\n";
    assert_eq!(render_board(&b), expected);
}
