use boopbot_core::board::{Board, Cell};
use boopbot_core::game::{Game, InvalidMove};

fn board_from(cells: &[(usize, usize, Cell)]) -> Board {
    let mut b = Board::new();
    for &(r, c, p) in cells {
        b.set_cell(r, c, p);
    }
    b
}

#[test]
fn new_board_all_columns_valid() {
    let g = Game::new();
    for c in 0..7 {
        assert!(g.is_valid_move(c));
    }
}

#[test]
fn out_of_range_columns_invalid() {
    let g = Game::new();
    assert!(!g.is_valid_move(7));
    assert!(!g.is_valid_move(100));
}

#[test]
fn full_column_becomes_invalid() {
    let mut g = Game::new();
    // Alternate two columns: column 0 collects three Red pieces and
    // column 1 three Yellow ones, so nobody has won yet.
    for _ in 0..3 {
        assert!(g.drop_piece(0).is_ok());
        assert!(g.drop_piece(1).is_ok());
    }
    assert!(!g.game_over);
    // A fourth Red piece in column 0 would win, so fill a column on a
    // fresh board with alternating colours instead.
    let b = board_from(&[
        (5, 0, Cell::Red),
        (4, 0, Cell::Yellow),
        (3, 0, Cell::Red),
        (2, 0, Cell::Yellow),
        (1, 0, Cell::Red),
        (0, 0, Cell::Yellow),
    ]);
    let g2 = Game::from_position(b, Cell::Red, None);
    assert!(!g2.is_valid_move(0));
    assert!(g2.is_valid_move(1));
}

#[test]
fn drop_lands_on_lowest_empty_row() {
    let mut g = Game::new();
    assert_eq!(g.drop_piece(3), Ok(5));
    assert_eq!(g.drop_piece(3), Ok(4));
    assert_eq!(g.drop_piece(3), Ok(3));
    assert_eq!(g.board.get(5, 3), Cell::Red);
    assert_eq!(g.board.get(4, 3), Cell::Yellow);
    assert_eq!(g.board.get(3, 3), Cell::Red);
    assert_eq!(g.board.get(2, 3), Cell::Empty);
}

#[test]
fn drop_into_full_column_rejected() {
    let b = board_from(&[
        (5, 2, Cell::Red),
        (4, 2, Cell::Yellow),
        (3, 2, Cell::Red),
        (2, 2, Cell::Yellow),
        (1, 2, Cell::Red),
        (0, 2, Cell::Yellow),
    ]);
    let mut g = Game::from_position(b, Cell::Red, None);
    assert_eq!(g.drop_piece(2), Err(InvalidMove));
    assert_eq!(g.board.get(0, 2), Cell::Yellow);
    assert_eq!(g.current_player, Cell::Red);
}

#[test]
fn drop_out_of_range_rejected() {
    let mut g = Game::new();
    assert_eq!(g.drop_piece(7), Err(InvalidMove));
    assert_eq!(g.drop_piece(42), Err(InvalidMove));
}

#[test]
fn drop_after_game_over_rejected() {
    let mut g = Game::new();
    // Red wins with a vertical four in column 0.
    for _ in 0..3 {
        assert!(g.drop_piece(0).is_ok());
        assert!(g.drop_piece(1).is_ok());
    }
    assert!(g.drop_piece(0).is_ok());
    assert!(g.game_over);
    assert_eq!(g.winner, Some(Cell::Red));
    assert_eq!(g.drop_piece(2), Err(InvalidMove));
}

#[test]
fn players_alternate() {
    let mut g = Game::new();
    assert_eq!(g.current_player, Cell::Red);
    g.drop_piece(0).unwrap();
    assert_eq!(g.current_player, Cell::Yellow);
    g.drop_piece(1).unwrap();
    assert_eq!(g.current_player, Cell::Red);
}

#[test]
fn winning_line_horizontal() {
    let b = board_from(&[
        (5, 1, Cell::Red),
        (5, 2, Cell::Red),
        (5, 3, Cell::Red),
        (5, 4, Cell::Red),
    ]);
    assert!(b.winning_line_through(5, 1));
    assert!(b.winning_line_through(5, 4));
    assert!(!b.winning_line_through(5, 0));
}

#[test]
fn winning_line_vertical() {
    let b = board_from(&[
        (5, 6, Cell::Yellow),
        (4, 6, Cell::Yellow),
        (3, 6, Cell::Yellow),
        (2, 6, Cell::Yellow),
    ]);
    assert!(b.winning_line_through(2, 6));
    assert!(b.winning_line_through(5, 6));
}

#[test]
fn winning_line_diagonal_up_right() {
    let b = board_from(&[
        (5, 0, Cell::Red),
        (4, 1, Cell::Red),
        (3, 2, Cell::Red),
        (2, 3, Cell::Red),
    ]);
    assert!(b.winning_line_through(5, 0));
    assert!(b.winning_line_through(3, 2));
    assert!(b.winning_line_through(2, 3));
}

#[test]
fn winning_line_diagonal_down_right() {
    let b = board_from(&[
        (2, 1, Cell::Yellow),
        (3, 2, Cell::Yellow),
        (4, 3, Cell::Yellow),
        (5, 4, Cell::Yellow),
    ]);
    assert!(b.winning_line_through(2, 1));
    assert!(b.winning_line_through(4, 3));
}

#[test]
fn winning_line_detected_from_middle_placement() {
    // The run extends to both sides of the checked cell: placing the third
    // of four already-aligned pieces in the middle must still be a win.
    let b = board_from(&[
        (5, 1, Cell::Red),
        (5, 2, Cell::Red),
        (5, 3, Cell::Red),
        (5, 4, Cell::Red),
    ]);
    assert!(b.winning_line_through(5, 2));
    assert!(b.winning_line_through(5, 3));
}

#[test]
fn three_in_a_row_is_no_win() {
    let b = board_from(&[(5, 0, Cell::Red), (5, 1, Cell::Red), (5, 2, Cell::Red)]);
    for c in 0..3 {
        assert!(!b.winning_line_through(5, c));
    }
}

#[test]
fn win_through_move_sets_winner() {
    let b = board_from(&[
        (5, 0, Cell::Yellow),
        (5, 1, Cell::Yellow),
        (5, 2, Cell::Yellow),
    ]);
    let mut g = Game::from_position(b, Cell::Yellow, None);
    assert_eq!(g.drop_piece(3), Ok(5));
    assert!(g.game_over);
    assert_eq!(g.winner, Some(Cell::Yellow));
    assert!(g.check_winner());
}

#[test]
fn board_is_full_only_when_top_row_full() {
    let mut b = Board::new();
    assert!(!b.is_full());
    for c in 0..7 {
        b.set_cell(0, c, if c % 2 == 0 { Cell::Red } else { Cell::Yellow });
    }
    assert!(b.is_full());
}

#[test]
fn duplicate_is_equal_and_independent() {
    let mut b = board_from(&[(5, 3, Cell::Red), (4, 3, Cell::Yellow)]);
    let copy = b.duplicate();
    assert_eq!(copy.get(5, 3), Cell::Red);
    assert_eq!(copy.get(4, 3), Cell::Yellow);
    b.set_cell(3, 3, Cell::Red);
    assert_eq!(copy.get(3, 3), Cell::Empty);
}
