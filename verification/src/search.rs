//! Move selection: tactical shortcuts and the minimax search.
//!
//! An engine turn tries, in order: the opening book (while at most four
//! pieces are on the board), an immediate winning drop, an immediate block
//! of the opponent's winning drop, a double-threat ("fork") move, a trap
//! set-up maximising future threats, and finally an iterative-deepening
//! minimax search with alpha-beta pruning over a transposition table keyed
//! by a board fingerprint. If even the search yields no column, the engine
//! falls back to the centre-outward column order.

use vstd::prelude::*;

use std::collections::HashMap;

use crate::board::{
    board_full, cell_at, col_playable, drop_row, board_after_drop, line_win_through, Board, Cell,
};
use crate::eval::{count_threats, evaluate, spec_eval, sum_n, threats};
use crate::game::{move_applied, Game};

verus! {

/// Dropping a `p` piece into column `c` completes a four-in-a-row through
/// the landing cell.
pub open spec fn wins_if_dropped(b: Seq<Cell>, c: int, p: Cell) -> bool {
    line_win_through(board_after_drop(b, c, p), drop_row(b, c), c)
}

/// The lowest-numbered playable column whose drop wins for `p`, scanning
/// from column `c` upward.
pub open spec fn first_win_col_from(b: Seq<Cell>, p: Cell, c: int) -> Option<int>
    decreases 7 - c,
{
    if c < 0 || c >= 7 {
        None
    } else if col_playable(b, c) && wins_if_dropped(b, c, p) {
        Some(c)
    } else {
        first_win_col_from(b, p, c + 1)
    }
}

/// The lowest-numbered playable column whose drop wins immediately for `p`.
pub open spec fn first_win_col(b: Seq<Cell>, p: Cell) -> Option<int> {
    first_win_col_from(b, p, 0)
}

/// The number of pieces on the board.
pub open spec fn num_pieces(b: Seq<Cell>) -> int {
    sum_n(
        |r: int|
            sum_n(
                |c: int|
                    if cell_at(b, r, c) != Cell::Empty {
                        1int
                    } else {
                        0int
                    },
                7,
            ),
        6,
    )
}

/// The fingerprint contribution of the cell at (r, c): empty cells leave
/// the hash unchanged; a piece mixes its position and colour in by
/// exclusive-or, plus a second position-dependent mixing term.
pub open spec fn cell_code(x: Cell) -> u64 {
    match x {
        Cell::Empty => 0u64,
        Cell::Red => 1u64,
        Cell::Yellow => 2u64,
    }
}

/// One step of the board fingerprint.
pub open spec fn hash_step(h: u64, r: int, c: int, x: Cell) -> u64 {
    if x == Cell::Empty {
        h
    } else {
        let h1 = h ^ ((((r * 7 + c) as u64) << 1u64) ^ cell_code(x));
        h1 ^ ((((r * 13 + c * 17) as u64) * cell_code(x)) as u64)
    }
}

/// The fingerprint after folding the first `n` cells of row `r` into `h`.
pub open spec fn hash_row(b: Seq<Cell>, r: int, n: int, h: u64) -> u64
    decreases n,
{
    if n <= 0 {
        h
    } else {
        hash_step(hash_row(b, r, n - 1, h), r, n - 1, cell_at(b, r, n - 1))
    }
}

/// The fingerprint after folding the first `n` rows.
pub open spec fn hash_rows(b: Seq<Cell>, n: int) -> u64
    decreases n,
{
    if n <= 0 {
        0u64
    } else {
        hash_row(b, n - 1, 7, hash_rows(b, n - 1))
    }
}

/// The board fingerprint used as the transposition-table key: the cell
/// fold, forced to be nonzero. Equal boards always get equal fingerprints;
/// distinct boards may collide, so a table hit is only ever a heuristic.
pub open spec fn board_fingerprint(b: Seq<Cell>) -> u64 {
    if hash_rows(b, 6) == 0u64 {
        1u64
    } else {
        hash_rows(b, 6)
    }
}

/// The opening-book reply, a function of the piece count and the bottom
/// row: with one piece played, answer a centre opening with column 2 and
/// anything else with the centre; with three pieces, develop or defend
/// around the centre. Otherwise the book is silent.
pub open spec fn opening_spec(b: Seq<Cell>) -> Option<int> {
    let n = num_pieces(b);
    if n > 4 {
        None
    } else if n == 1 {
        if cell_at(b, 5, 3) == Cell::Red {
            Some(2int)
        } else {
            Some(3int)
        }
    } else if n == 3 {
        if cell_at(b, 5, 3) == Cell::Yellow {
            if cell_at(b, 5, 0) == Cell::Red || cell_at(b, 5, 1) == Cell::Red {
                Some(2int)
            } else if cell_at(b, 5, 5) == Cell::Red || cell_at(b, 5, 6) == Cell::Red {
                Some(4int)
            } else {
                Some(4int)
            }
        } else if cell_at(b, 5, 2) == Cell::Yellow {
            if col_playable(b, 4) {
                Some(4int)
            } else {
                None
            }
        } else if cell_at(b, 5, 4) == Cell::Yellow {
            if col_playable(b, 2) {
                Some(2int)
            } else {
                None
            }
        } else {
            None
        }
    } else {
        None
    }
}

/// The fixed centre-outward column order used by the search and by the
/// final fallback.
pub open spec fn col_order_spec(i: int) -> int {
    if i == 0 {
        3
    } else if i == 1 {
        2
    } else if i == 2 {
        4
    } else if i == 3 {
        1
    } else if i == 4 {
        5
    } else if i == 5 {
        0
    } else {
        6
    }
}

/// The `i`-th column in centre-outward order: 3, 2, 4, 1, 5, 0, 6.
fn col_in_order(i: usize) -> (c: usize)
    requires
        i < 7,
    ensures
        c < 7,
        c == col_order_spec(i as int),
{
    if i == 0 {
        3
    } else if i == 1 {
        2
    } else if i == 2 {
        4
    } else if i == 3 {
        1
    } else if i == 4 {
        5
    } else if i == 5 {
        0
    } else {
        6
    }
}

/// Count the pieces on the board.
pub fn count_pieces(b: &Board) -> (n: usize)
    requires
        b.wf(),
    ensures
        n == num_pieces(b@),
        n <= 42,
{
    let mut acc: usize = 0;
    let mut r: usize = 0;
    while r < 6
        invariant
            b.wf(),
            r <= 6,
            acc <= 7 * r,
            acc == num_pieces_rows(b@, r as int),
        decreases 6 - r,
    {
        let mut c: usize = 0;
        while c < 7
            invariant
                b.wf(),
                r < 6,
                c <= 7,
                acc <= 7 * r + c,
                acc == num_pieces_rows(b@, r as int) + sum_n(
                    |c2: int|
                        if cell_at(b@, r as int, c2) != Cell::Empty {
                            1int
                        } else {
                            0int
                        },
                    c as int,
                ),
            decreases 7 - c,
        {
            if b.get(r, c) != Cell::Empty {
                acc = acc + 1;
            }
            c = c + 1;
        }
        r = r + 1;
    }
    acc
}

/// The piece count restricted to the first `n` rows.
pub open spec fn num_pieces_rows(b: Seq<Cell>, n: int) -> int {
    sum_n(
        |r: int|
            sum_n(
                |c: int|
                    if cell_at(b, r, c) != Cell::Empty {
                        1int
                    } else {
                        0int
                    },
                7,
            ),
        n,
    )
}

/// The transposition-table fingerprint of the board.
pub fn hash_board(b: &Board) -> (h: u64)
    requires
        b.wf(),
    ensures
        h == board_fingerprint(b@),
{
    let mut h: u64 = 0;
    let mut r: usize = 0;
    while r < 6
        invariant
            b.wf(),
            r <= 6,
            h == hash_rows(b@, r as int),
        decreases 6 - r,
    {
        let mut c: usize = 0;
        while c < 7
            invariant
                b.wf(),
                r < 6,
                c <= 7,
                h == hash_row(b@, r as int, c as int, hash_rows(b@, r as int)),
            decreases 7 - c,
        {
            let x = b.get(r, c);
            if x != Cell::Empty {
                let code: u64 = if x == Cell::Red {
                    1
                } else {
                    2
                };
                let pos: u64 = ((r * 7 + c) as u64) << 1u64;
                h = h ^ (pos ^ code);
                h = h ^ (((r * 13 + c * 17) as u64) * code);
            }
            c = c + 1;
        }
        r = r + 1;
    }
    if h == 0 {
        h = 1;
    }
    h
}

/// The opening-book move for the current position, if the book has one.
pub fn get_opening_move(b: &Board) -> (res: Option<usize>)
    requires
        b.wf(),
    ensures
        match res {
            Some(c) => c < 7 && opening_spec(b@) == Some(c as int),
            None => opening_spec(b@) == None::<int>,
        },
{
    let n = count_pieces(b);
    if n > 4 {
        return None;
    }
    if n == 1 {
        if b.get(5, 3) == Cell::Red {
            return Some(2);
        }
        return Some(3);
    }
    if n == 3 {
        if b.get(5, 3) == Cell::Yellow {
            if b.get(5, 0) == Cell::Red || b.get(5, 1) == Cell::Red {
                return Some(2);
            }
            if b.get(5, 5) == Cell::Red || b.get(5, 6) == Cell::Red {
                return Some(4);
            }
            return Some(4);
        }
        if b.get(5, 2) == Cell::Yellow {
            if b.is_valid_move(4) {
                return Some(4);
            }
            return None;
        }
        if b.get(5, 4) == Cell::Yellow {
            if b.is_valid_move(2) {
                return Some(2);
            }
            return None;
        }
        return None;
    }
    None
}

/// The lowest-numbered column where dropping a `p` piece wins on the spot:
/// `None` exactly when no single drop completes a four-in-a-row for `p`.
pub fn find_winning_move(board: &Board, p: Cell) -> (res: Option<usize>)
    requires
        board.wf(),
    ensures
        match res {
            Some(c) => {
                &&& c < 7
                &&& col_playable(board@, c as int)
                &&& wins_if_dropped(board@, c as int, p)
                &&& first_win_col(board@, p) == Some(c as int)
                &&& forall|c2: int|
                    0 <= c2 < c ==> !(col_playable(board@, c2) && wins_if_dropped(board@, c2, p))
            },
            None => {
                &&& first_win_col(board@, p) == None::<int>
                &&& forall|c2: int|
                    0 <= c2 < 7 ==> !(col_playable(board@, c2) && wins_if_dropped(board@, c2, p))
            },
        },
{
    let mut sim = board.duplicate();
    let mut c: usize = 0;
    while c < 7
        invariant
            board.wf(),
            sim.wf(),
            sim@ == board@,
            c <= 7,
            first_win_col(board@, p) == first_win_col_from(board@, p, c as int),
            forall|c2: int|
                0 <= c2 < c ==> !(col_playable(board@, c2) && wins_if_dropped(board@, c2, p)),
        decreases 7 - c,
    {
        if sim.is_valid_move(c) {
            let row = sim.landing_row(c);
            sim.set_cell(row, c, p);
            let won = sim.winning_line_through(row, c);
            sim.set_cell(row, c, Cell::Empty);
            proof {
                assert(sim@ =~= board@);
            }
            if won {
                return Some(c);
            }
        }
        c = c + 1;
    }
    None
}

/// How many of the first `n` columns are playable winning drops for the
/// machine side.
pub open spec fn winning_followups(b: Seq<Cell>, n: int) -> int
    decreases n,
{
    if n <= 0 {
        0
    } else {
        winning_followups(b, n - 1) + if col_playable(b, n - 1) && wins_if_dropped(
            b,
            n - 1,
            Cell::Yellow,
        ) {
            1int
        } else {
            0int
        }
    }
}

/// A fork: after the machine drops in column `c`, it has at least two
/// distinct immediately winning follow-up columns. A single opponent reply
/// cannot block both, except when the threats share a prerequisite cell;
/// the engine treats every fork as won, the standard heuristic.
pub open spec fn is_fork_col(b: Seq<Cell>, c: int) -> bool {
    col_playable(b, c) && winning_followups(board_after_drop(b, c, Cell::Yellow), 7) >= 2
}

/// The lowest-numbered fork column at or above `c`.
pub open spec fn first_fork_col_from(b: Seq<Cell>, c: int) -> Option<int>
    decreases 7 - c,
{
    if c < 0 || c >= 7 {
        None
    } else if is_fork_col(b, c) {
        Some(c)
    } else {
        first_fork_col_from(b, c + 1)
    }
}

/// The lowest-numbered fork column, if any.
pub open spec fn first_fork_col(b: Seq<Cell>) -> Option<int> {
    first_fork_col_from(b, 0)
}

/// The lowest-numbered column whose drop creates a double threat: two
/// distinct winning follow-ups for the machine side. `None` exactly when
/// no single drop does.
pub fn find_forced_win_in_two(board: &Board) -> (res: Option<usize>)
    requires
        board.wf(),
    ensures
        match res {
            Some(c) => {
                &&& c < 7
                &&& is_fork_col(board@, c as int)
                &&& first_fork_col(board@) == Some(c as int)
                &&& forall|c2: int| 0 <= c2 < c ==> !is_fork_col(board@, c2)
            },
            None => {
                &&& first_fork_col(board@) == None::<int>
                &&& forall|c2: int| 0 <= c2 < 7 ==> !is_fork_col(board@, c2)
            },
        },
{
    let mut sim = board.duplicate();
    let mut c: usize = 0;
    while c < 7
        invariant
            board.wf(),
            sim.wf(),
            sim@ == board@,
            c <= 7,
            first_fork_col(board@) == first_fork_col_from(board@, c as int),
            forall|c2: int| 0 <= c2 < c ==> !is_fork_col(board@, c2),
        decreases 7 - c,
    {
        if sim.is_valid_move(c) {
            let row = sim.landing_row(c);
            sim.set_cell(row, c, Cell::Yellow);
            let ghost b1 = sim@;
            proof {
                assert(b1 == board_after_drop(board@, c as int, Cell::Yellow));
            }
            let mut wins: i32 = 0;
            let mut c2: usize = 0;
            while c2 < 7
                invariant
                    sim.wf(),
                    sim@ == b1,
                    c2 <= 7,
                    0 <= wins <= c2,
                    wins == winning_followups(b1, c2 as int),
                decreases 7 - c2,
            {
                if sim.is_valid_move(c2) {
                    let row2 = sim.landing_row(c2);
                    sim.set_cell(row2, c2, Cell::Yellow);
                    let won = sim.winning_line_through(row2, c2);
                    sim.set_cell(row2, c2, Cell::Empty);
                    proof {
                        assert(sim@ =~= b1);
                    }
                    if won {
                        wins = wins + 1;
                    }
                }
                c2 = c2 + 1;
            }
            sim.set_cell(row, c, Cell::Empty);
            proof {
                assert(sim@ =~= board@);
            }
            if wins >= 2 {
                return Some(c);
            }
        }
        c = c + 1;
    }
    None
}

/// Whether some opponent reply among the first `n` columns leaves the
/// opponent without any open three.
pub open spec fn trap_zero_exists(b1: Seq<Cell>, n: int) -> bool
    decreases n,
{
    if n <= 0 {
        false
    } else {
        trap_zero_exists(b1, n - 1) || (col_playable(b1, n - 1) && threats(
            board_after_drop(b1, n - 1, Cell::Red),
            Cell::Red,
        ) == 0)
    }
}

/// The best machine threat count reachable over the opponent replies among
/// the first `n` columns that leave the opponent with no open three,
/// keeping the first reply on ties.
pub open spec fn trap_max_threats(b1: Seq<Cell>, n: int) -> int
    decreases n,
{
    if n <= 0 {
        0
    } else {
        let prev = trap_max_threats(b1, n - 1);
        let b2 = board_after_drop(b1, n - 1, Cell::Red);
        if col_playable(b1, n - 1) && threats(b2, Cell::Red) == 0 && threats(b2, Cell::Yellow)
            > prev {
            threats(b2, Cell::Yellow)
        } else {
            prev
        }
    }
}

/// The left fold of the trap scan over the first `n` columns: the chosen
/// column so far, and the best threat count so far. A column is chosen
/// when it is playable, some safe opponent reply exists, and its best
/// threat count strictly beats the best so far (ties keep the earlier
/// column).
pub open spec fn trap_fold(b: Seq<Cell>, n: int) -> (Option<int>, int)
    decreases n,
{
    if n <= 0 {
        (None::<int>, 0int)
    } else {
        let prev = trap_fold(b, n - 1);
        if col_playable(b, n - 1) {
            let b1 = board_after_drop(b, n - 1, Cell::Yellow);
            let m = trap_max_threats(b1, 7);
            if m > prev.1 && trap_zero_exists(b1, 7) {
                (Some(n - 1), m)
            } else {
                prev
            }
        } else {
            prev
        }
    }
}

/// The trap column for the whole board.
pub open spec fn trap_col(b: Seq<Cell>) -> Option<int> {
    trap_fold(b, 7).0
}

/// Law: a chosen trap column is always a playable column of the board, and
/// the fold's best threat count never goes negative.
pub proof fn lemma_trap_fold_playable(b: Seq<Cell>, n: int)
    ensures
        trap_fold(b, n).0 matches Some(c) ==> 0 <= c < n && col_playable(b, c),
        trap_fold(b, n).1 >= 0,
    decreases n,
{
    if n > 0 {
        lemma_trap_fold_playable(b, n - 1);
    }
}

/// The column maximising the machine's threat count after the opponent's
/// best safe reply, as a trap set-up; `None` when no playable column has a
/// safe opponent reply with a positive machine threat count.
pub fn find_trap_setup(board: &Board) -> (res: Option<usize>)
    requires
        board.wf(),
    ensures
        match res {
            Some(c) => c < 7 && col_playable(board@, c as int) && trap_col(board@) == Some(
                c as int,
            ),
            None => trap_col(board@) == None::<int>,
        },
{
    let mut sim = board.duplicate();
    let mut best_col: Option<usize> = None;
    let mut max_threats: i32 = 0;
    let mut c: usize = 0;
    while c < 7
        invariant
            board.wf(),
            sim.wf(),
            sim@ == board@,
            c <= 7,
            0 <= max_threats <= 69,
            match best_col {
                Some(bc) => bc < 7 && col_playable(board@, bc as int) && trap_fold(
                    board@,
                    c as int,
                ) == (Some(bc as int), max_threats as int),
                None => trap_fold(board@, c as int) == (None::<int>, max_threats as int)
                    && max_threats == 0,
            },
        decreases 7 - c,
    {
        if sim.is_valid_move(c) {
            let row = sim.landing_row(c);
            sim.set_cell(row, c, Cell::Yellow);
            let ghost b1 = sim@;
            proof {
                assert(b1 == board_after_drop(board@, c as int, Cell::Yellow));
            }
            let mut omft: i32 = 0;
            let mut zero_found = false;
            let mut oc: usize = 0;
            while oc < 7
                invariant
                    sim.wf(),
                    sim@ == b1,
                    oc <= 7,
                    0 <= omft <= 69,
                    zero_found == trap_zero_exists(b1, oc as int),
                    omft == trap_max_threats(b1, oc as int),
                decreases 7 - oc,
            {
                if sim.is_valid_move(oc) {
                    let orow = sim.landing_row(oc);
                    sim.set_cell(orow, oc, Cell::Red);
                    let opp_t = count_threats(&sim, Cell::Red);
                    if opp_t == 0 {
                        let our_t = count_threats(&sim, Cell::Yellow);
                        if our_t > omft {
                            omft = our_t;
                        }
                        zero_found = true;
                    }
                    sim.set_cell(orow, oc, Cell::Empty);
                    proof {
                        assert(sim@ =~= b1);
                    }
                }
                oc = oc + 1;
            }
            sim.set_cell(row, c, Cell::Empty);
            proof {
                assert(sim@ =~= board@);
            }
            if omft > max_threats && zero_found {
                max_threats = omft;
                best_col = Some(c);
            }
        }
        c = c + 1;
    }
    best_col
}

/// Minimax with alpha-beta pruning over a transposition table. Returns the
/// best column in centre-outward scan order (or -1 at a leaf, on a table
/// hit, or when no column is playable) and the score found. The board is
/// used as scratch space for the simulation and handed back unchanged.
/// A table entry is trusted only when it was computed to at least the
/// currently required depth; distinct boards may share a fingerprint, so
/// the score from a hit is heuristic, but the returned column is always a
/// playable column of the board or -1.
pub fn minimax(
    board: &mut Board,
    last_move: Option<(usize, usize)>,
    depth: u32,
    maximizing: bool,
    alpha: i32,
    beta: i32,
    table: &mut HashMap<u64, (i32, u32)>,
) -> (res: (i32, i32))
    requires
        old(board).wf(),
        match last_move {
            Some(m) => m.0 < 6 && m.1 < 7,
            None => true,
        },
    ensures
        final(board)@ == old(board)@,
        final(board).wf(),
        -1 <= res.0 < 7,
        res.0 >= 0 ==> col_playable(old(board)@, res.0 as int),
        (depth == 0 || board_full(old(board)@) || (match last_move {
            Some(m) => line_win_through(old(board)@, m.0 as int, m.1 as int),
            None => false,
        })) ==> res.0 == -1 && res.1 == spec_eval(old(board)@, last_move),
    decreases depth,
{
    let won = match last_move {
        Some((lr, lc)) => board.winning_line_through(lr, lc),
        None => false,
    };
    if depth == 0 || board.is_full() || won {
        let e = evaluate(board, last_move);
        return (-1, e);
    }

    let h = hash_board(board);
    let cached: Option<(i32, u32)> = match table.get(&h) {
        Some(v) => Some(*v),
        None => None,
    };
    if let Some(entry) = cached {
        if entry.1 >= depth {
            return (-1, entry.0);
        }
    }

    let me = if maximizing {
        Cell::Yellow
    } else {
        Cell::Red
    };
    let ghost orig = board@;

    if maximizing {
        let mut best_score = i32::MIN;
        let mut best_col: i32 = -1;
        let mut a = alpha;
        let mut cut = false;
        let mut i: usize = 0;
        while i < 7 && !cut
            invariant
                board.wf(),
                board@ == orig,
                orig == old(board)@,
                i <= 7,
                best_col == -1 || (0 <= best_col < 7 && col_playable(orig, best_col as int)),
                match last_move {
                    Some(m) => m.0 < 6 && m.1 < 7,
                    None => true,
                },
                depth >= 1,
                !board_full(orig),
                match last_move {
                    Some(m) => !line_win_through(orig, m.0 as int, m.1 as int),
                    None => true,
                },
            decreases 7 - i,
        {
            let col = col_in_order(i);
            if board.is_valid_move(col) {
                let row = board.landing_row(col);
                board.set_cell(row, col, me);
                if board.winning_line_through(row, col) {
                    board.set_cell(row, col, Cell::Empty);
                    proof {
                        assert(board@ =~= orig);
                    }
                    table.insert(h, (1000000, depth));
                    return (col as i32, 1000000);
                }
                let sub = minimax(board, Some((row, col)), depth - 1, false, a, beta, table);
                board.set_cell(row, col, Cell::Empty);
                proof {
                    assert(board@ =~= orig);
                }
                if sub.1 > best_score {
                    best_score = sub.1;
                    best_col = col as i32;
                }
                if best_score > a {
                    a = best_score;
                }
                if beta <= a {
                    cut = true;
                }
            }
            i = i + 1;
        }
        if depth > 1 && best_col >= 0 {
            table.insert(h, (best_score, depth));
        }
        (best_col, best_score)
    } else {
        let mut best_score = i32::MAX;
        let mut best_col: i32 = -1;
        let mut bt = beta;
        let mut cut = false;
        let mut i: usize = 0;
        while i < 7 && !cut
            invariant
                board.wf(),
                board@ == orig,
                orig == old(board)@,
                i <= 7,
                best_col == -1 || (0 <= best_col < 7 && col_playable(orig, best_col as int)),
                match last_move {
                    Some(m) => m.0 < 6 && m.1 < 7,
                    None => true,
                },
                depth >= 1,
                !board_full(orig),
                match last_move {
                    Some(m) => !line_win_through(orig, m.0 as int, m.1 as int),
                    None => true,
                },
            decreases 7 - i,
        {
            let col = col_in_order(i);
            if board.is_valid_move(col) {
                let row = board.landing_row(col);
                board.set_cell(row, col, me);
                if board.winning_line_through(row, col) {
                    board.set_cell(row, col, Cell::Empty);
                    proof {
                        assert(board@ =~= orig);
                    }
                    table.insert(h, (-1000000, depth));
                    return (col as i32, -1000000);
                }
                let sub = minimax(board, Some((row, col)), depth - 1, true, alpha, bt, table);
                board.set_cell(row, col, Cell::Empty);
                proof {
                    assert(board@ =~= orig);
                }
                if sub.1 < best_score {
                    best_score = sub.1;
                    best_col = col as i32;
                }
                if best_score < bt {
                    bt = best_score;
                }
                if bt <= alpha {
                    cut = true;
                }
            }
            i = i + 1;
        }
        if depth > 1 && best_col >= 0 {
            table.insert(h, (best_score, depth));
        }
        (best_col, best_score)
    }
}

/// The move the shortcut layers would choose for the position, in their
/// order of precedence: the opening book (when its column is playable),
/// then an immediate machine win, then an immediate block, then a fork,
/// then a trap set-up. `None` when the decision falls to the full search.
pub open spec fn shortcut_move(g: Game) -> Option<int> {
    let b = g.board@;
    let opening = match opening_spec(b) {
        Some(m) => if col_playable(b, m) {
            Some(m)
        } else {
            None::<int>
        },
        None => None::<int>,
    };
    if opening.is_some() {
        opening
    } else if first_win_col(b, Cell::Yellow).is_some() {
        first_win_col(b, Cell::Yellow)
    } else if first_win_col(b, Cell::Red).is_some() {
        first_win_col(b, Cell::Red)
    } else if first_fork_col(b).is_some() {
        first_fork_col(b)
    } else {
        trap_col(b)
    }
}

impl Game {
    /// Choose and play the machine side's move. The tactical shortcuts are
    /// tried in their fixed precedence and the chosen column is played; when
    /// none applies, an iterative-deepening minimax search (depth 7 under
    /// 10 pieces, 6 under 20, else 5) picks a column, with the centre-outward
    /// order as a last resort. Returns the column played, or `None`, leaving
    /// the game unchanged, when the game is over or no column is playable.
    pub fn ai_move(&mut self) -> (res: Option<usize>)
        requires
            old(self).wf(),
        ensures
            final(self).wf(),
            old(self).game_over ==> res == None::<usize> && *final(self) == *old(self),
            !old(self).game_over ==> match shortcut_move(*old(self)) {
                Some(c) => res == Some(c as usize) && move_applied(*old(self), *final(self), c),
                None => match res {
                    Some(c) => c < 7 && col_playable(old(self).board@, c as int) && move_applied(
                        *old(self),
                        *final(self),
                        c as int,
                    ),
                    None => (forall|c2: int| 0 <= c2 < 7 ==> !col_playable(old(self).board@, c2))
                        && *final(self) == *old(self),
                },
            },
    {
        if self.game_over {
            return None;
        }

        // Each drop below is into a column just shown to be playable while
        // the game is live, so it cannot be refused.
        if let Some(m) = get_opening_move(&self.board) {
            if self.board.is_valid_move(m) {
                let _outcome = self.drop_piece(m);
                return Some(m);
            }
        }

        if let Some(c) = find_winning_move(&self.board, Cell::Yellow) {
            let _outcome = self.drop_piece(c);
            return Some(c);
        }

        if let Some(c) = find_winning_move(&self.board, Cell::Red) {
            let _outcome = self.drop_piece(c);
            return Some(c);
        }

        if let Some(c) = find_forced_win_in_two(&self.board) {
            let _outcome = self.drop_piece(c);
            return Some(c);
        }

        if let Some(c) = find_trap_setup(&self.board) {
            let _outcome = self.drop_piece(c);
            return Some(c);
        }

        let piece_count = count_pieces(&self.board);
        let max_depth: u32 = if piece_count < 10 {
            7
        } else if piece_count < 20 {
            6
        } else {
            5
        };

        let mut table: HashMap<u64, (i32, u32)> = HashMap::new();
        let mut scratch = self.board.duplicate();
        let mut best_col: i32 = 3;
        let mut best_score: i32 = i32::MIN;
        let mut stop = false;
        let mut depth: u32 = 1;
        while depth <= max_depth && !stop
            invariant
                self.wf(),
                scratch.wf(),
                scratch@ == self.board@,
                depth >= 1,
                max_depth <= 7,
                best_col == 3 || best_col == -1 || (0 <= best_col < 7 && col_playable(
                    self.board@,
                    best_col as int,
                )),
            decreases max_depth + 1 - depth,
        {
            let r = minimax(&mut scratch, self.last_move, depth, true, i32::MIN, i32::MAX,
                &mut table);
            if r.1 > 900000 {
                best_col = r.0;
                stop = true;
            } else if r.0 >= 0 && r.1 > best_score {
                best_col = r.0;
                best_score = r.1;
            }
            depth = depth + 1;
        }

        if best_col >= 0 && best_col < 7 {
            let bc = best_col as usize;
            if self.board.is_valid_move(bc) {
                let _outcome = self.drop_piece(bc);
                return Some(bc);
            }
        }

        if self.board.is_valid_move(3) {
            let _outcome = self.drop_piece(3);
            return Some(3);
        }

        let mut i: usize = 0;
        while i < 7
            invariant
                self.wf(),
                !self.game_over,
                i <= 7,
                *self == *old(self),
                shortcut_move(*old(self)) == None::<int>,
                forall|j: int| 0 <= j < i ==> !col_playable(self.board@, col_order_spec(j)),
            decreases 7 - i,
        {
            let col = col_in_order(i);
            if self.board.is_valid_move(col) {
                let _outcome = self.drop_piece(col);
                return Some(col);
            }
            i = i + 1;
        }

        proof {
            let b = old(self).board@;
            assert(!col_playable(b, col_order_spec(0)));
            assert(!col_playable(b, col_order_spec(1)));
            assert(!col_playable(b, col_order_spec(2)));
            assert(!col_playable(b, col_order_spec(3)));
            assert(!col_playable(b, col_order_spec(4)));
            assert(!col_playable(b, col_order_spec(5)));
            assert(!col_playable(b, col_order_spec(6)));
            assert forall|c2: int| 0 <= c2 < 7 implies !col_playable(b, c2) by {
                if c2 == 3 {
                    assert(col_order_spec(0) == 3);
                } else if c2 == 2 {
                    assert(col_order_spec(1) == 2);
                } else if c2 == 4 {
                    assert(col_order_spec(2) == 4);
                } else if c2 == 1 {
                    assert(col_order_spec(3) == 1);
                } else if c2 == 5 {
                    assert(col_order_spec(4) == 5);
                } else if c2 == 0 {
                    assert(col_order_spec(5) == 0);
                } else {
                    assert(col_order_spec(6) == 6);
                }
            }
        }
        None
    }
}

} // verus!
