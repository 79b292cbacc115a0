use boopbot_core::board::{Board, Cell};
use boopbot_core::eval::{count_threats, detect_stairstep_patterns, evaluate, evaluate_window};
use boopbot_core::game::Game;
use boopbot_core::search::{
    count_pieces, find_forced_win_in_two, find_trap_setup, find_winning_move, get_opening_move,
    hash_board, minimax,
};
use std::collections::HashMap;

fn board_from(cells: &[(usize, usize, Cell)]) -> Board {
    let mut b = Board::new();
    for &(r, c, p) in cells {
        b.set_cell(r, c, p);
    }
    b
}

#[test]
fn evaluate_empty_board_is_zero() {
    let b = Board::new();
    assert_eq!(evaluate(&b, None), 0);
}

#[test]
fn evaluate_single_centre_piece_exact() {
    // One Yellow piece on the bottom centre: +6 centre control, four
    // bottom-row windows at +1 each tripled (+12), one vertical window
    // (+1), one down-right window (+1), one up-right window tripled (+3).
    let b = board_from(&[(5, 3, Cell::Yellow)]);
    assert_eq!(evaluate(&b, Some((5, 3))), 23);
}

#[test]
fn evaluate_machine_win_is_exactly_the_win_constant() {
    let b = board_from(&[
        (5, 0, Cell::Yellow),
        (5, 1, Cell::Yellow),
        (5, 2, Cell::Yellow),
        (5, 3, Cell::Yellow),
    ]);
    assert_eq!(evaluate(&b, Some((5, 1))), 1_000_000);
}

#[test]
fn evaluate_opponent_win_is_exactly_the_negated_constant() {
    let b = board_from(&[
        (5, 0, Cell::Red),
        (5, 1, Cell::Red),
        (5, 2, Cell::Red),
        (5, 3, Cell::Red),
    ]);
    assert_eq!(evaluate(&b, Some((5, 1))), -1_000_000);
}

#[test]
fn evaluate_bottom_row_pair_penalty_exact() {
    // Two Red pieces on the bottom left. Window scores: the bottom row
    // windows give -36 and -3, the two vertical windows -1 each, the two
    // up-right diagonals -3 each; the bottom-row defence clause adds -50
    // for the red pair with two empties.
    let b = board_from(&[(5, 0, Cell::Red), (5, 1, Cell::Red)]);
    assert_eq!(evaluate(&b, None), -97);
}

#[test]
fn evaluate_is_idempotent() {
    let b = board_from(&[
        (5, 3, Cell::Red),
        (5, 2, Cell::Yellow),
        (4, 3, Cell::Red),
        (5, 4, Cell::Yellow),
        (5, 1, Cell::Red),
    ]);
    let first = evaluate(&b, Some((5, 1)));
    let second = evaluate(&b, Some((5, 1)));
    assert_eq!(first, second);
}

#[test]
fn evaluate_window_table_values() {
    let y = Cell::Yellow;
    let r = Cell::Red;
    let e = Cell::Empty;
    assert_eq!(evaluate_window(y, y, y, e, 0), 100);
    assert_eq!(evaluate_window(y, y, y, y, 0), 1000);
    assert_eq!(evaluate_window(y, e, e, e, 0), 1);
    assert_eq!(evaluate_window(r, r, r, e, 0), -120);
    assert_eq!(evaluate_window(r, r, e, e, 5), -36);
    assert_eq!(evaluate_window(y, e, e, e, 4), 2);
    assert_eq!(evaluate_window(y, r, y, e, 5), 0);
    assert_eq!(evaluate_window(e, e, e, e, 5), 0);
}

#[test]
fn count_threats_open_three() {
    let b = board_from(&[(5, 0, Cell::Yellow), (5, 1, Cell::Yellow), (5, 2, Cell::Yellow)]);
    assert_eq!(count_threats(&b, Cell::Yellow), 1);
    assert_eq!(count_threats(&b, Cell::Red), 0);
}

#[test]
fn stairstep_patterns_scored() {
    // Yellow at (5,0) with (4,0) empty and Yellow at (4,1): the first shape
    // (+25), and its continuation cells (3,2) and (4,2) are empty too, so
    // the second shape (+40) also fires.
    let b = board_from(&[(5, 0, Cell::Yellow), (4, 1, Cell::Yellow)]);
    assert_eq!(detect_stairstep_patterns(&b), 65);
    let b2 = board_from(&[(5, 0, Cell::Red), (4, 1, Cell::Red)]);
    assert_eq!(detect_stairstep_patterns(&b2), -80);
}

#[test]
fn piece_count() {
    let b = board_from(&[(5, 0, Cell::Red), (5, 1, Cell::Yellow), (4, 0, Cell::Red)]);
    assert_eq!(count_pieces(&b), 3);
    assert_eq!(count_pieces(&Board::new()), 0);
}

#[test]
fn hash_is_stable_and_separates_simple_boards() {
    let a = board_from(&[(5, 3, Cell::Yellow)]);
    let b = board_from(&[(5, 3, Cell::Red)]);
    assert_eq!(hash_board(&a), hash_board(&a));
    assert_ne!(hash_board(&a), hash_board(&b));
    assert_ne!(hash_board(&a), hash_board(&Board::new()));
}

#[test]
fn find_winning_move_none_on_empty_board() {
    let b = Board::new();
    assert_eq!(find_winning_move(&b, Cell::Yellow), None);
    assert_eq!(find_winning_move(&b, Cell::Red), None);
}

#[test]
fn find_winning_move_none_without_a_completable_three() {
    let b = board_from(&[(5, 0, Cell::Yellow), (5, 1, Cell::Yellow)]);
    assert_eq!(find_winning_move(&b, Cell::Yellow), None);
}

#[test]
fn find_winning_move_blocks_bottom_row_three() {
    // Opponent pieces at (5,0), (5,1), (5,2) and (5,3) empty: the opponent's
    // winning drop is column 3, the block candidate for the machine side.
    let b = board_from(&[(5, 0, Cell::Red), (5, 1, Cell::Red), (5, 2, Cell::Red)]);
    assert_eq!(find_winning_move(&b, Cell::Red), Some(3));
    assert_eq!(find_winning_move(&b, Cell::Yellow), None);
}

#[test]
fn find_winning_move_vertical() {
    let b = board_from(&[
        (5, 6, Cell::Yellow),
        (4, 6, Cell::Yellow),
        (3, 6, Cell::Yellow),
    ]);
    assert_eq!(find_winning_move(&b, Cell::Yellow), Some(6));
}

#[test]
fn fork_detected_and_first_column_reported() {
    // Yellow at (5,1) and (5,2): dropping at column 3 leaves two winning
    // follow-ups (columns 0 and 4), an unstoppable double threat.
    let b = board_from(&[(5, 1, Cell::Yellow), (5, 2, Cell::Yellow)]);
    assert_eq!(find_forced_win_in_two(&b), Some(3));
}

#[test]
fn fork_none_without_double_threat() {
    let b = board_from(&[(5, 1, Cell::Yellow)]);
    assert_eq!(find_forced_win_in_two(&b), None);
    assert_eq!(find_forced_win_in_two(&Board::new()), None);
}

#[test]
fn trap_setup_maximises_future_threats() {
    // With Yellow on (5,2) and (5,3), dropping at column 1 leaves two open
    // threes after any opponent reply that blocks neither, the best threat
    // count over all columns; columns 0 and 4 are strictly worse or tied
    // later, so column 1 is chosen.
    let b = board_from(&[
        (5, 2, Cell::Yellow),
        (5, 3, Cell::Yellow),
        (5, 6, Cell::Red),
    ]);
    assert_eq!(find_trap_setup(&b), Some(1));
    assert_eq!(find_trap_setup(&Board::new()), None);
}

#[test]
fn minimax_reports_an_immediate_win() {
    let b = board_from(&[
        (5, 3, Cell::Yellow),
        (4, 3, Cell::Yellow),
        (3, 3, Cell::Yellow),
        (5, 0, Cell::Red),
        (5, 1, Cell::Red),
    ]);
    let mut scratch = b.duplicate();
    let mut table: HashMap<u64, (i32, u32)> = HashMap::new();
    let (col, score) = minimax(&mut scratch, None, 1, true, i32::MIN, i32::MAX, &mut table);
    assert_eq!(col, 3);
    assert_eq!(score, 1_000_000);
}

#[test]
fn opening_book_answers_centre_with_column_two() {
    // Empty board, the machine moving second, facing a first move in the
    // centre column: the book must select column 2.
    let mut g = Game::new();
    assert_eq!(g.drop_piece(3), Ok(5));
    assert_eq!(g.current_player, Cell::Yellow);
    assert_eq!(g.ai_move(), Some(2));
    assert_eq!(g.board.get(5, 2), Cell::Yellow);
}

#[test]
fn opening_book_takes_centre_against_a_side_opening() {
    let mut g = Game::new();
    assert_eq!(g.drop_piece(0), Ok(5));
    assert_eq!(g.ai_move(), Some(3));
    assert_eq!(g.board.get(5, 3), Cell::Yellow);
}

#[test]
fn opening_book_direct_queries() {
    let centre = board_from(&[(5, 3, Cell::Red)]);
    assert_eq!(get_opening_move(&centre), Some(2));
    let side = board_from(&[(5, 6, Cell::Red)]);
    assert_eq!(get_opening_move(&side), Some(3));
    assert_eq!(get_opening_move(&Board::new()), None);
}

#[test]
fn ai_plays_its_winning_move() {
    let b = board_from(&[
        (5, 3, Cell::Yellow),
        (4, 3, Cell::Yellow),
        (3, 3, Cell::Yellow),
        (5, 0, Cell::Red),
        (5, 1, Cell::Red),
    ]);
    let mut g = Game::from_position(b, Cell::Yellow, Some((5, 1)));
    assert_eq!(g.ai_move(), Some(3));
    assert!(g.game_over);
    assert_eq!(g.winner, Some(Cell::Yellow));
}

#[test]
fn ai_blocks_the_opponents_winning_move() {
    let b = board_from(&[
        (5, 0, Cell::Red),
        (5, 1, Cell::Red),
        (5, 2, Cell::Red),
        (4, 0, Cell::Yellow),
        (4, 1, Cell::Yellow),
    ]);
    let mut g = Game::from_position(b, Cell::Yellow, Some((5, 2)));
    assert_eq!(g.ai_move(), Some(3));
    assert_eq!(g.board.get(5, 3), Cell::Yellow);
    assert!(!g.game_over);
}

#[test]
fn ai_plays_the_fork_instead_of_searching() {
    // Two independent open-three lines will share no blocking cell: the
    // double-threat layer must choose column 3 and play it.
    let b = board_from(&[
        (5, 1, Cell::Yellow),
        (5, 2, Cell::Yellow),
        (5, 5, Cell::Red),
        (5, 6, Cell::Red),
    ]);
    let mut g = Game::from_position(b, Cell::Yellow, Some((5, 5)));
    assert_eq!(g.ai_move(), Some(3));
    assert_eq!(g.board.get(5, 3), Cell::Yellow);
    // The move indeed created two immediate winning follow-ups.
    assert_eq!(find_winning_move(&g.board, Cell::Yellow), Some(0));
}

#[test]
fn ai_returns_none_when_the_game_is_over() {
    let mut g = Game::new();
    for _ in 0..3 {
        g.drop_piece(0).unwrap();
        g.drop_piece(1).unwrap();
    }
    g.drop_piece(0).unwrap();
    assert!(g.game_over);
    assert_eq!(g.ai_move(), None);
}

#[test]
fn ai_move_on_a_late_position_is_legal() {
    // A dense position without tactical shortcuts for either side, deep
    // enough that the search runs at reduced depth.
    let mut cells = Vec::new();
    // Stack alternating colours so no one has three in a row anywhere:
    // columns 0..5 get four pieces each in a colour pattern per column.
    let pattern = [
        [Cell::Red, Cell::Yellow, Cell::Yellow, Cell::Red],
        [Cell::Yellow, Cell::Red, Cell::Red, Cell::Yellow],
        [Cell::Red, Cell::Yellow, Cell::Yellow, Cell::Red],
        [Cell::Red, Cell::Yellow, Cell::Red, Cell::Yellow],
        [Cell::Yellow, Cell::Red, Cell::Yellow, Cell::Red],
        [Cell::Yellow, Cell::Red, Cell::Red, Cell::Yellow],
    ];
    for (c, col) in pattern.iter().enumerate() {
        for (k, &p) in col.iter().enumerate() {
            cells.push((5 - k, c, p));
        }
    }
    let b = board_from(&cells);
    let mut g = Game::from_position(b, Cell::Yellow, Some((2, 5)));
    let before = g.board.duplicate();
    let chosen = g.ai_move();
    let c = chosen.expect("a playable column exists");
    assert!(before.is_valid_move(c));
    assert!(!before.is_full());
}
