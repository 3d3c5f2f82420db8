use tic_tac_toe::{Board, Cell, PlacementError, Player};

#[test]
fn place_on_empty_cell_succeeds_then_occupied() {
    let mut b = Board::new();
    for r in 0..3usize {
        for c in 0..3usize {
            let mut fresh = Board::new();
            assert_eq!(fresh.place(r, c, Player::X), Ok(()));
            assert_eq!(fresh.cell(r, c), Cell::Marked(Player::X));
            assert_eq!(fresh.place(r, c, Player::X), Err(PlacementError::CellOccupied));
            assert_eq!(fresh.place(r, c, Player::O), Err(PlacementError::CellOccupied));
            assert_eq!(fresh.cell(r, c), Cell::Marked(Player::X));
        }
    }
    assert_eq!(b.place(1, 1, Player::O), Ok(()));
    assert_eq!(b.place(1, 1, Player::O), Err(PlacementError::CellOccupied));
}

#[test]
fn out_of_range_rejected_on_any_board() {
    let mut b = Board::new();
    assert_eq!(b.place(3, 0, Player::X), Err(PlacementError::CoordinateOutOfRange));
    assert_eq!(b.place(0, 3, Player::X), Err(PlacementError::CoordinateOutOfRange));
    assert_eq!(b.place(5, 1, Player::O), Err(PlacementError::CoordinateOutOfRange));
    assert_eq!(b.place(100, 100, Player::O), Err(PlacementError::CoordinateOutOfRange));
    // The same on a part-filled board.
    assert_eq!(b.place(2, 2, Player::X), Ok(()));
    assert_eq!(b.place(3, 3, Player::X), Err(PlacementError::CoordinateOutOfRange));
    assert_eq!(b.cell(2, 2), Cell::Marked(Player::X));
}

#[test]
fn clear_empties_the_square() {
    let mut b = Board::new();
    assert_eq!(b.place(0, 1, Player::O), Ok(()));
    b.clear(0, 1);
    assert_eq!(b.cell(0, 1), Cell::Empty);
    assert_eq!(b.place(0, 1, Player::X), Ok(()));
}

#[test]
fn full_row_wins() {
    for r in 0..3usize {
        let mut b = Board::new();
        for c in 0..3usize {
            assert!(!b.check_winner(Player::X));
            assert_eq!(b.place(r, c, Player::X), Ok(()));
        }
        assert!(b.check_winner(Player::X));
        assert!(!b.check_winner(Player::O));
    }
}

#[test]
fn full_column_wins() {
    for c in 0..3usize {
        let mut b = Board::new();
        for r in 0..3usize {
            assert!(!b.check_winner(Player::O));
            assert_eq!(b.place(r, c, Player::O), Ok(()));
        }
        assert!(b.check_winner(Player::O));
        assert!(!b.check_winner(Player::X));
    }
}

#[test]
fn diagonals_win() {
    let mut b = Board::new();
    for i in 0..3usize {
        assert_eq!(b.place(i, i, Player::X), Ok(()));
    }
    assert!(b.check_winner(Player::X));
    assert!(!b.check_winner(Player::O));

    let mut b = Board::new();
    for i in 0..3usize {
        assert_eq!(b.place(i, 2 - i, Player::O), Ok(()));
    }
    assert!(b.check_winner(Player::O));
    assert!(!b.check_winner(Player::X));
}

#[test]
fn mixed_board_wins_nobody() {
    // X X O / O O X / X X O: no line belongs to one player.
    let mut b = Board::new();
    let x_cells = [(0, 0), (0, 1), (1, 2), (2, 0), (2, 1)];
    let o_cells = [(0, 2), (1, 0), (1, 1), (2, 2)];
    for &(r, c) in x_cells.iter() {
        assert_eq!(b.place(r, c, Player::X), Ok(()));
    }
    for &(r, c) in o_cells.iter() {
        assert_eq!(b.place(r, c, Player::O), Ok(()));
    }
    assert!(!b.check_winner(Player::X));
    assert!(!b.check_winner(Player::O));
    assert!(b.is_full());
}

#[test]
fn is_full_only_when_all_nine_marked() {
    let mut b = Board::new();
    assert!(!b.is_full());
    let mut n = 0usize;
    for r in 0..3usize {
        for c in 0..3usize {
            let p = if n % 2 == 0 { Player::X } else { Player::O };
            assert_eq!(b.place(r, c, p), Ok(()));
            n += 1;
            if n < 9 {
                assert!(!b.is_full());
            }
        }
    }
    assert!(b.is_full());
}
