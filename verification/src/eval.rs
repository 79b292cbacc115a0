//! The heuristic position evaluator.
//!
//! A position is scored from the machine side's (Yellow's) point of view.
//! A completed four-in-a-row through the last move dominates everything and
//! is worth exactly plus or minus one million. Otherwise the score is the
//! sum of: control of the centre columns, a table-driven score for every
//! 4-cell window in the four line directions (weighted towards the bottom
//! rows), an extra penalty for opponent pairs and triples on the bottom
//! row, a bonus per open three ("threat") weighted against the opponent,
//! and a bonus for two stair-step shapes that often precede forced wins.
//!
//! Every quantity is defined twice: as a spec-level sum over the board
//! sequence, and as executable code proved to compute exactly that sum.

use vstd::prelude::*;

use crate::board::{cell_at, line_win_through, Board, Cell};

verus! {

/// Sum of `f(0) + f(1) + ... + f(n - 1)`.
pub open spec fn sum_n(f: spec_fn(int) -> int, n: int) -> int
    decreases n,
{
    if n <= 0 {
        0
    } else {
        sum_n(f, n - 1) + f(n - 1)
    }
}

/// 1 when the cell holds `p`, else 0.
pub open spec fn cw(x: Cell, p: Cell) -> int {
    if x == p {
        1
    } else {
        0
    }
}

/// How many of the four cells hold `p`.
pub open spec fn count4(a: Cell, b: Cell, c: Cell, d: Cell, p: Cell) -> int {
    cw(a, p) + cw(b, p) + cw(c, p) + cw(d, p)
}

/// Windows on the bottom row weigh triple, on the next row double.
pub open spec fn row_mult(r: int) -> int {
    if r == 5 {
        3
    } else if r == 4 {
        2
    } else {
        1
    }
}

/// The base score of a 4-cell window from its piece counts: windows held
/// by one side alone score by how close they are to completion, with the
/// opponent's progress weighted slightly higher; mixed windows are dead
/// and score zero.
pub open spec fn base_window_score(y: int, rd: int, e: int) -> int {
    if y > 0 && rd > 0 {
        0
    } else if y == 4 {
        1000
    } else if y == 3 && e == 1 {
        100
    } else if y == 2 && e == 2 {
        10
    } else if y == 1 && e == 3 {
        1
    } else if rd == 4 {
        -1000
    } else if rd == 3 && e == 1 {
        -120
    } else if rd == 2 && e == 2 {
        -12
    } else if rd == 1 && e == 3 {
        -1
    } else {
        0
    }
}

/// Score of one window, including the row weighting by its reference row.
pub open spec fn window_score_cells(a: Cell, b: Cell, c: Cell, d: Cell, row: int) -> int {
    base_window_score(
        count4(a, b, c, d, Cell::Yellow),
        count4(a, b, c, d, Cell::Red),
        count4(a, b, c, d, Cell::Empty),
    ) * row_mult(row)
}

/// Score of the horizontal window whose leftmost cell is (r, c).
pub open spec fn h_score(b: Seq<Cell>, r: int, c: int) -> int {
    window_score_cells(
        cell_at(b, r, c),
        cell_at(b, r, c + 1),
        cell_at(b, r, c + 2),
        cell_at(b, r, c + 3),
        r,
    )
}

/// Score of the vertical window whose topmost cell is (r, c).
pub open spec fn v_score(b: Seq<Cell>, r: int, c: int) -> int {
    window_score_cells(
        cell_at(b, r, c),
        cell_at(b, r + 1, c),
        cell_at(b, r + 2, c),
        cell_at(b, r + 3, c),
        r,
    )
}

/// Score of the down-right window starting at (r, c).
pub open spec fn dr_score(b: Seq<Cell>, r: int, c: int) -> int {
    window_score_cells(
        cell_at(b, r, c),
        cell_at(b, r + 1, c + 1),
        cell_at(b, r + 2, c + 2),
        cell_at(b, r + 3, c + 3),
        r,
    )
}

/// Score of the up-right window starting at (r, c).
pub open spec fn ur_score(b: Seq<Cell>, r: int, c: int) -> int {
    window_score_cells(
        cell_at(b, r, c),
        cell_at(b, r - 1, c + 1),
        cell_at(b, r - 2, c + 2),
        cell_at(b, r - 3, c + 3),
        r,
    )
}

/// The summed window scores of all 69 windows of the board: 24 horizontal,
/// 21 vertical, 12 down-right and 12 up-right.
pub open spec fn total_window_score(b: Seq<Cell>) -> int {
    sum_n(|r: int| sum_n(|c: int| h_score(b, r, c), 4), 6) + sum_n(
        |c: int| sum_n(|r: int| v_score(b, r, c), 3),
        7,
    ) + sum_n(|r: int| sum_n(|c: int| dr_score(b, r, c), 4), 3) + sum_n(
        |r: int| sum_n(|c: int| ur_score(b, 3 + r, c), 4),
        3,
    )
}

/// Per-cell centre bonus: `w` for a Yellow piece, `-w` for Red.
pub open spec fn centre_cell_score(x: Cell, w: int) -> int {
    if x == Cell::Yellow {
        w
    } else if x == Cell::Red {
        -w
    } else {
        0
    }
}

/// Centre-control score: weight 6 per piece in the centre column, 4 per
/// piece in either adjacent column.
pub open spec fn centre_total(b: Seq<Cell>) -> int {
    sum_n(|r: int| centre_cell_score(cell_at(b, r, 3), 6), 6) + sum_n(
        |r: int| centre_cell_score(cell_at(b, r, 2), 4),
        6,
    ) + sum_n(|r: int| centre_cell_score(cell_at(b, r, 4), 4), 6)
}

/// Extra penalty for the bottom-row window starting at column `c`: an
/// opponent pair with two empties costs 50 more, an opponent triple with
/// one empty costs 500 more.
pub open spec fn bottom_pen_at(b: Seq<Cell>, c: int) -> int {
    let rd = count4(
        cell_at(b, 5, c),
        cell_at(b, 5, c + 1),
        cell_at(b, 5, c + 2),
        cell_at(b, 5, c + 3),
        Cell::Red,
    );
    let e = count4(
        cell_at(b, 5, c),
        cell_at(b, 5, c + 1),
        cell_at(b, 5, c + 2),
        cell_at(b, 5, c + 3),
        Cell::Empty,
    );
    if rd == 2 && e == 2 {
        -50
    } else if rd == 3 && e == 1 {
        -500
    } else {
        0
    }
}

/// Total bottom-row defence penalty over the four bottom-row windows.
pub open spec fn bottom_pen_total(b: Seq<Cell>) -> int {
    sum_n(|c: int| bottom_pen_at(b, c), 4)
}

/// An open three: a window holding exactly three pieces of `p` and one
/// empty cell, one move away from completion wherever that empty cell is.
pub open spec fn is_threat4(a: Cell, b: Cell, c: Cell, d: Cell, p: Cell) -> bool {
    count4(a, b, c, d, p) == 3 && count4(a, b, c, d, Cell::Empty) == 1
}

/// 1 when the horizontal window at (r, c) is an open three of `p`.
pub open spec fn h_threat(b: Seq<Cell>, p: Cell, r: int, c: int) -> int {
    if is_threat4(cell_at(b, r, c), cell_at(b, r, c + 1), cell_at(b, r, c + 2), cell_at(b, r, c + 3), p) {
        1
    } else {
        0
    }
}

/// 1 when the vertical window at (r, c) is an open three of `p`.
pub open spec fn v_threat(b: Seq<Cell>, p: Cell, r: int, c: int) -> int {
    if is_threat4(cell_at(b, r, c), cell_at(b, r + 1, c), cell_at(b, r + 2, c), cell_at(b, r + 3, c), p) {
        1
    } else {
        0
    }
}

/// 1 when the down-right window at (r, c) is an open three of `p`.
pub open spec fn dr_threat(b: Seq<Cell>, p: Cell, r: int, c: int) -> int {
    if is_threat4(
        cell_at(b, r, c),
        cell_at(b, r + 1, c + 1),
        cell_at(b, r + 2, c + 2),
        cell_at(b, r + 3, c + 3),
        p,
    ) {
        1
    } else {
        0
    }
}

/// 1 when the up-right window at (r, c) is an open three of `p`.
pub open spec fn ur_threat(b: Seq<Cell>, p: Cell, r: int, c: int) -> int {
    if is_threat4(
        cell_at(b, r, c),
        cell_at(b, r - 1, c + 1),
        cell_at(b, r - 2, c + 2),
        cell_at(b, r - 3, c + 3),
        p,
    ) {
        1
    } else {
        0
    }
}

/// How many open threes side `p` holds, over all windows of the board.
pub open spec fn threats(b: Seq<Cell>, p: Cell) -> int {
    sum_n(|r: int| sum_n(|c: int| h_threat(b, p, r, c), 4), 6) + sum_n(
        |c: int| sum_n(|r: int| v_threat(b, p, r, c), 3),
        7,
    ) + sum_n(|r: int| sum_n(|c: int| dr_threat(b, p, r, c), 4), 3) + sum_n(
        |r: int| sum_n(|c: int| ur_threat(b, p, 3 + r, c), 4),
        3,
    )
}

/// Stair-step pattern score anchored at (r, c), for rows 2 to 5 and
/// columns 0 to 3: a piece with an empty cell above and an own piece
/// diagonally up-right, and a two-piece diagonal with a two-cell empty
/// continuation. Machine shapes score +25/+40, opponent shapes -30/-50.
pub open spec fn stair_at(b: Seq<Cell>, r: int, c: int) -> int {
    (if r >= 3 && cell_at(b, r, c) == Cell::Yellow && cell_at(b, r - 1, c) == Cell::Empty
        && cell_at(b, r - 1, c + 1) == Cell::Yellow {
        25int
    } else {
        0int
    }) + (if r >= 3 && cell_at(b, r, c) == Cell::Yellow && cell_at(b, r - 1, c + 1) == Cell::Yellow
        && cell_at(b, r - 2, c + 2) == Cell::Empty && cell_at(b, r - 1, c + 2) == Cell::Empty {
        40int
    } else {
        0int
    }) + (if r >= 3 && cell_at(b, r, c) == Cell::Red && cell_at(b, r - 1, c) == Cell::Empty
        && cell_at(b, r - 1, c + 1) == Cell::Red {
        -30int
    } else {
        0int
    }) + (if r >= 3 && cell_at(b, r, c) == Cell::Red && cell_at(b, r - 1, c + 1) == Cell::Red
        && cell_at(b, r - 2, c + 2) == Cell::Empty && cell_at(b, r - 1, c + 2) == Cell::Empty {
        -50int
    } else {
        0int
    })
}

/// Total stair-step score over rows 2 to 5 and columns 0 to 3.
pub open spec fn stair_total(b: Seq<Cell>) -> int {
    sum_n(|r: int| sum_n(|c: int| stair_at(b, 2 + r, c), 4), 4)
}

/// The whole non-terminal heuristic: centre control, window scores,
/// bottom-row defence, open threes at +25 per own and -30 per opponent
/// threat, and stair-step shapes.
pub open spec fn position_score(b: Seq<Cell>) -> int {
    centre_total(b) + total_window_score(b) + bottom_pen_total(b) + 25 * threats(b, Cell::Yellow)
        - 30 * threats(b, Cell::Red) + stair_total(b)
}

/// The full evaluation of a position with the given last move: exactly
/// one million for a completed machine win, exactly minus one million for
/// a completed opponent win, else the heuristic `position_score`.
pub open spec fn spec_eval(b: Seq<Cell>, last: Option<(usize, usize)>) -> int {
    match last {
        Some(m) => if line_win_through(b, m.0 as int, m.1 as int) {
            if cell_at(b, m.0 as int, m.1 as int) == Cell::Yellow {
                1000000
            } else {
                -1000000
            }
        } else {
            position_score(b)
        },
        None => position_score(b),
    }
}

/// Law: a position whose last move completed a four-in-a-row evaluates to
/// exactly the win constant for the machine side, and to exactly its
/// negation for the opponent.
pub proof fn lemma_eval_win_value(b: Seq<Cell>, r: int, c: int)
    requires
        0 <= r < 6,
        0 <= c < 7,
        line_win_through(b, r, c),
    ensures
        cell_at(b, r, c) == Cell::Yellow ==> spec_eval(b, Some(((r as usize), (c as usize))))
            == 1000000,
        cell_at(b, r, c) == Cell::Red ==> spec_eval(b, Some(((r as usize), (c as usize))))
            == -1000000,
{
}

/// Law: the evaluation is a pure function of the board and the last move:
/// any two results of `evaluate` on equal arguments are equal, since each
/// equals `spec_eval` of those arguments.
pub proof fn lemma_evaluate_deterministic(
    b: Seq<Cell>,
    last: Option<(usize, usize)>,
    s1: int,
    s2: int,
)
    requires
        s1 == spec_eval(b, last),
        s2 == spec_eval(b, last),
    ensures
        s1 == s2,
{
}

/// How many of the four cells hold `p`, as executable code.
fn count4_cells(a: Cell, b: Cell, c: Cell, d: Cell, p: Cell) -> (n: i32)
    ensures
        n == count4(a, b, c, d, p),
        0 <= n <= 4,
{
    let mut n: i32 = 0;
    if a == p {
        n = n + 1;
    }
    if b == p {
        n = n + 1;
    }
    if c == p {
        n = n + 1;
    }
    if d == p {
        n = n + 1;
    }
    n
}

/// Score one 4-cell window by the fixed table and the row weighting.
pub fn evaluate_window(a: Cell, b: Cell, c: Cell, d: Cell, row: usize) -> (score: i32)
    requires
        row < 6,
    ensures
        score == window_score_cells(a, b, c, d, row as int),
        -3000 <= score <= 3000,
{
    let y = count4_cells(a, b, c, d, Cell::Yellow);
    let rd = count4_cells(a, b, c, d, Cell::Red);
    let e = count4_cells(a, b, c, d, Cell::Empty);
    let base: i32 = if y > 0 && rd > 0 {
        0
    } else if y == 4 {
        1000
    } else if y == 3 && e == 1 {
        100
    } else if y == 2 && e == 2 {
        10
    } else if y == 1 && e == 3 {
        1
    } else if rd == 4 {
        -1000
    } else if rd == 3 && e == 1 {
        -120
    } else if rd == 2 && e == 2 {
        -12
    } else if rd == 1 && e == 3 {
        -1
    } else {
        0
    };
    if row == 5 {
        base * 3
    } else if row == 4 {
        base * 2
    } else {
        base
    }
}

/// Whether the window is an open three of `p`.
fn window_is_threat(a: Cell, b: Cell, c: Cell, d: Cell, p: Cell) -> (res: bool)
    ensures
        res == is_threat4(a, b, c, d, p),
{
    let np = count4_cells(a, b, c, d, p);
    let ne = count4_cells(a, b, c, d, Cell::Empty);
    np == 3 && ne == 1
}

/// Count the open threes of side `p` over every window of the board.
pub fn count_threats(b: &Board, p: Cell) -> (n: i32)
    requires
        b.wf(),
    ensures
        n == threats(b@, p),
        0 <= n <= 69,
{
    let mut acc: i32 = 0;

    let mut r: usize = 0;
    while r < 6
        invariant
            b.wf(),
            r <= 6,
            0 <= acc <= 4 * r,
            acc == sum_n(|r2: int| sum_n(|c2: int| h_threat(b@, p, r2, c2), 4), r as int),
        decreases 6 - r,
    {
        let mut c: usize = 0;
        while c < 4
            invariant
                b.wf(),
                r < 6,
                c <= 4,
                0 <= acc <= 4 * r + c,
                acc == sum_n(|r2: int| sum_n(|c2: int| h_threat(b@, p, r2, c2), 4), r as int)
                    + sum_n(|c2: int| h_threat(b@, p, r as int, c2), c as int),
            decreases 4 - c,
        {
            if window_is_threat(b.get(r, c), b.get(r, c + 1), b.get(r, c + 2), b.get(r, c + 3), p) {
                acc = acc + 1;
            }
            c = c + 1;
        }
        r = r + 1;
    }
    let h_total: i32 = acc;
    assert(h_total == sum_n(|r2: int| sum_n(|c2: int| h_threat(b@, p, r2, c2), 4), 6));

    let mut acc: i32 = 0;
    let mut c: usize = 0;
    while c < 7
        invariant
            b.wf(),
            c <= 7,
            0 <= acc <= 3 * c,
            acc == sum_n(|c2: int| sum_n(|r2: int| v_threat(b@, p, r2, c2), 3), c as int),
        decreases 7 - c,
    {
        let mut r: usize = 0;
        while r < 3
            invariant
                b.wf(),
                c < 7,
                r <= 3,
                0 <= acc <= 3 * c + r,
                acc == sum_n(|c2: int| sum_n(|r2: int| v_threat(b@, p, r2, c2), 3), c as int)
                    + sum_n(|r2: int| v_threat(b@, p, r2, c as int), r as int),
            decreases 3 - r,
        {
            if window_is_threat(b.get(r, c), b.get(r + 1, c), b.get(r + 2, c), b.get(r + 3, c), p) {
                acc = acc + 1;
            }
            r = r + 1;
        }
        c = c + 1;
    }
    let v_total: i32 = acc;
    assert(v_total == sum_n(|c2: int| sum_n(|r2: int| v_threat(b@, p, r2, c2), 3), 7));

    let mut acc: i32 = 0;
    let mut r: usize = 0;
    while r < 3
        invariant
            b.wf(),
            r <= 3,
            0 <= acc <= 4 * r,
            acc == sum_n(|r2: int| sum_n(|c2: int| dr_threat(b@, p, r2, c2), 4), r as int),
        decreases 3 - r,
    {
        let mut c: usize = 0;
        while c < 4
            invariant
                b.wf(),
                r < 3,
                c <= 4,
                0 <= acc <= 4 * r + c,
                acc == sum_n(|r2: int| sum_n(|c2: int| dr_threat(b@, p, r2, c2), 4), r as int)
                    + sum_n(|c2: int| dr_threat(b@, p, r as int, c2), c as int),
            decreases 4 - c,
        {
            if window_is_threat(
                b.get(r, c),
                b.get(r + 1, c + 1),
                b.get(r + 2, c + 2),
                b.get(r + 3, c + 3),
                p,
            ) {
                acc = acc + 1;
            }
            c = c + 1;
        }
        r = r + 1;
    }
    let dr_total: i32 = acc;
    assert(dr_total == sum_n(|r2: int| sum_n(|c2: int| dr_threat(b@, p, r2, c2), 4), 3));

    let mut acc: i32 = 0;
    let mut i: usize = 0;
    while i < 3
        invariant
            b.wf(),
            i <= 3,
            0 <= acc <= 4 * i,
            acc == sum_n(|r2: int| sum_n(|c2: int| ur_threat(b@, p, 3 + r2, c2), 4), i as int),
        decreases 3 - i,
    {
        let r = i + 3;
        let mut c: usize = 0;
        while c < 4
            invariant
                b.wf(),
                i < 3,
                r == i + 3,
                c <= 4,
                0 <= acc <= 4 * i + c,
                acc == sum_n(|r2: int| sum_n(|c2: int| ur_threat(b@, p, 3 + r2, c2), 4), i as int)
                    + sum_n(|c2: int| ur_threat(b@, p, 3 + i as int, c2), c as int),
            decreases 4 - c,
        {
            if window_is_threat(
                b.get(r, c),
                b.get(r - 1, c + 1),
                b.get(r - 2, c + 2),
                b.get(r - 3, c + 3),
                p,
            ) {
                acc = acc + 1;
            }
            c = c + 1;
        }
        i = i + 1;
    }
    let ur_total: i32 = acc;
    assert(ur_total == sum_n(|r2: int| sum_n(|c2: int| ur_threat(b@, p, 3 + r2, c2), 4), 3));

    h_total + v_total + dr_total + ur_total
}

/// Score the two stair-step shapes for both sides over the whole board.
pub fn detect_stairstep_patterns(b: &Board) -> (s: i32)
    requires
        b.wf(),
    ensures
        s == stair_total(b@),
        -1280 <= s <= 1040,
{
    let mut acc: i32 = 0;
    let mut i: usize = 0;
    while i < 4
        invariant
            b.wf(),
            i <= 4,
            -320 * (i as int) <= acc <= 260 * (i as int),
            acc == sum_n(|r2: int| sum_n(|c2: int| stair_at(b@, 2 + r2, c2), 4), i as int),
        decreases 4 - i,
    {
        let r = i + 2;
        let mut c: usize = 0;
        while c < 4
            invariant
                b.wf(),
                i < 4,
                r == i + 2,
                c <= 4,
                -320 * (i as int) - 80 * (c as int) <= acc <= 260 * (i as int) + 65 * (c as int),
                acc == sum_n(|r2: int| sum_n(|c2: int| stair_at(b@, 2 + r2, c2), 4), i as int)
                    + sum_n(|c2: int| stair_at(b@, 2 + i as int, c2), c as int),
            decreases 4 - c,
        {
            let mut d: i32 = 0;
            if r >= 3 {
                if b.get(r, c) == Cell::Yellow && b.get(r - 1, c) == Cell::Empty && b.get(
                    r - 1,
                    c + 1,
                ) == Cell::Yellow {
                    d = d + 25;
                }
                if b.get(r, c) == Cell::Yellow && b.get(r - 1, c + 1) == Cell::Yellow && b.get(
                    r - 2,
                    c + 2,
                ) == Cell::Empty && b.get(r - 1, c + 2) == Cell::Empty {
                    d = d + 40;
                }
                if b.get(r, c) == Cell::Red && b.get(r - 1, c) == Cell::Empty && b.get(r - 1, c + 1)
                    == Cell::Red {
                    d = d - 30;
                }
                if b.get(r, c) == Cell::Red && b.get(r - 1, c + 1) == Cell::Red && b.get(
                    r - 2,
                    c + 2,
                ) == Cell::Empty && b.get(r - 1, c + 2) == Cell::Empty {
                    d = d - 50;
                }
            }
            assert(d == stair_at(b@, r as int, c as int));
            acc = acc + d;
            c = c + 1;
        }
        i = i + 1;
    }
    acc
}

/// Centre-control score: the centre column at weight 6 and both adjacent
/// columns at weight 4, per piece, positive for Yellow and negative for
/// Red.
fn centre_score(b: &Board) -> (s: i32)
    requires
        b.wf(),
    ensures
        s == centre_total(b@),
        -84 <= s <= 84,
{
    let mut acc: i32 = 0;
    let mut r: usize = 0;
    while r < 6
        invariant
            b.wf(),
            r <= 6,
            -14 * r <= acc <= 14 * r,
            acc == sum_n(|r2: int| centre_cell_score(cell_at(b@, r2, 3), 6), r as int) + sum_n(
                |r2: int| centre_cell_score(cell_at(b@, r2, 2), 4),
                r as int,
            ) + sum_n(|r2: int| centre_cell_score(cell_at(b@, r2, 4), 4), r as int),
        decreases 6 - r,
    {
        let mid = b.get(r, 3);
        if mid == Cell::Yellow {
            acc = acc + 6;
        } else if mid == Cell::Red {
            acc = acc - 6;
        }
        let left = b.get(r, 2);
        if left == Cell::Yellow {
            acc = acc + 4;
        } else if left == Cell::Red {
            acc = acc - 4;
        }
        let right = b.get(r, 4);
        if right == Cell::Yellow {
            acc = acc + 4;
        } else if right == Cell::Red {
            acc = acc - 4;
        }
        r = r + 1;
    }
    acc
}

/// The summed window scores of all 69 windows of the board.
fn window_scores(b: &Board) -> (s: i32)
    requires
        b.wf(),
    ensures
        s == total_window_score(b@),
        -207000 <= s <= 207000,
{
    let mut acc: i32 = 0;

    let mut r: usize = 0;
    while r < 6
        invariant
            b.wf(),
            r <= 6,
            -12000 * r <= acc <= 12000 * r,
            acc == sum_n(|r2: int| sum_n(|c2: int| h_score(b@, r2, c2), 4), r as int),
        decreases 6 - r,
    {
        let mut c: usize = 0;
        while c < 4
            invariant
                b.wf(),
                r < 6,
                c <= 4,
                -12000 * r - 3000 * c <= acc <= 12000 * r + 3000 * c,
                acc == sum_n(|r2: int| sum_n(|c2: int| h_score(b@, r2, c2), 4), r as int) + sum_n(
                    |c2: int| h_score(b@, r as int, c2),
                    c as int,
                ),
            decreases 4 - c,
        {
            let w = evaluate_window(
                b.get(r, c),
                b.get(r, c + 1),
                b.get(r, c + 2),
                b.get(r, c + 3),
                r,
            );
            acc = acc + w;
            c = c + 1;
        }
        r = r + 1;
    }
    let h_total: i32 = acc;
    assert(h_total == sum_n(|r2: int| sum_n(|c2: int| h_score(b@, r2, c2), 4), 6));

    let mut acc: i32 = 0;
    let mut c: usize = 0;
    while c < 7
        invariant
            b.wf(),
            c <= 7,
            -9000 * c <= acc <= 9000 * c,
            acc == sum_n(|c2: int| sum_n(|r2: int| v_score(b@, r2, c2), 3), c as int),
        decreases 7 - c,
    {
        let mut r: usize = 0;
        while r < 3
            invariant
                b.wf(),
                c < 7,
                r <= 3,
                -9000 * c - 3000 * r <= acc <= 9000 * c + 3000 * r,
                acc == sum_n(|c2: int| sum_n(|r2: int| v_score(b@, r2, c2), 3), c as int) + sum_n(
                    |r2: int| v_score(b@, r2, c as int),
                    r as int,
                ),
            decreases 3 - r,
        {
            let w = evaluate_window(
                b.get(r, c),
                b.get(r + 1, c),
                b.get(r + 2, c),
                b.get(r + 3, c),
                r,
            );
            acc = acc + w;
            r = r + 1;
        }
        c = c + 1;
    }
    let v_total: i32 = acc;
    assert(v_total == sum_n(|c2: int| sum_n(|r2: int| v_score(b@, r2, c2), 3), 7));

    let mut acc: i32 = 0;
    let mut r: usize = 0;
    while r < 3
        invariant
            b.wf(),
            r <= 3,
            -12000 * r <= acc <= 12000 * r,
            acc == sum_n(|r2: int| sum_n(|c2: int| dr_score(b@, r2, c2), 4), r as int),
        decreases 3 - r,
    {
        let mut c: usize = 0;
        while c < 4
            invariant
                b.wf(),
                r < 3,
                c <= 4,
                -12000 * r - 3000 * c <= acc <= 12000 * r + 3000 * c,
                acc == sum_n(|r2: int| sum_n(|c2: int| dr_score(b@, r2, c2), 4), r as int) + sum_n(
                    |c2: int| dr_score(b@, r as int, c2),
                    c as int,
                ),
            decreases 4 - c,
        {
            let w = evaluate_window(
                b.get(r, c),
                b.get(r + 1, c + 1),
                b.get(r + 2, c + 2),
                b.get(r + 3, c + 3),
                r,
            );
            acc = acc + w;
            c = c + 1;
        }
        r = r + 1;
    }
    let dr_total: i32 = acc;
    assert(dr_total == sum_n(|r2: int| sum_n(|c2: int| dr_score(b@, r2, c2), 4), 3));

    let mut acc: i32 = 0;
    let mut i: usize = 0;
    while i < 3
        invariant
            b.wf(),
            i <= 3,
            -12000 * i <= acc <= 12000 * i,
            acc == sum_n(|r2: int| sum_n(|c2: int| ur_score(b@, 3 + r2, c2), 4), i as int),
        decreases 3 - i,
    {
        let r = i + 3;
        let mut c: usize = 0;
        while c < 4
            invariant
                b.wf(),
                i < 3,
                r == i + 3,
                c <= 4,
                -12000 * i - 3000 * c <= acc <= 12000 * i + 3000 * c,
                acc == sum_n(|r2: int| sum_n(|c2: int| ur_score(b@, 3 + r2, c2), 4), i as int)
                    + sum_n(|c2: int| ur_score(b@, 3 + i as int, c2), c as int),
            decreases 4 - c,
        {
            let w = evaluate_window(
                b.get(r, c),
                b.get(r - 1, c + 1),
                b.get(r - 2, c + 2),
                b.get(r - 3, c + 3),
                r,
            );
            acc = acc + w;
            c = c + 1;
        }
        i = i + 1;
    }
    let ur_total: i32 = acc;
    assert(ur_total == sum_n(|r2: int| sum_n(|c2: int| ur_score(b@, 3 + r2, c2), 4), 3));

    h_total + v_total + dr_total + ur_total
}

/// Extra penalty for opponent pairs and triples on the bottom row.
fn bottom_row_penalty(b: &Board) -> (s: i32)
    requires
        b.wf(),
    ensures
        s == bottom_pen_total(b@),
        -2000 <= s <= 0,
{
    let mut acc: i32 = 0;
    let mut c: usize = 0;
    while c < 4
        invariant
            b.wf(),
            c <= 4,
            -500 * c <= acc <= 0,
            acc == sum_n(|c2: int| bottom_pen_at(b@, c2), c as int),
        decreases 4 - c,
    {
        let rd = count4_cells(
            b.get(5, c),
            b.get(5, c + 1),
            b.get(5, c + 2),
            b.get(5, c + 3),
            Cell::Red,
        );
        let e = count4_cells(
            b.get(5, c),
            b.get(5, c + 1),
            b.get(5, c + 2),
            b.get(5, c + 3),
            Cell::Empty,
        );
        if rd == 2 && e == 2 {
            acc = acc - 50;
        } else if rd == 3 && e == 1 {
            acc = acc - 500;
        }
        c = c + 1;
    }
    acc
}

/// Evaluate a position from the machine side's point of view: exactly one
/// million for a machine win through the last move, exactly minus one
/// million for an opponent win, else the heuristic sum. The score is a
/// pure function of the board and the last move.
pub fn evaluate(board: &Board, last_move: Option<(usize, usize)>) -> (score: i32)
    requires
        board.wf(),
        match last_move {
            Some(m) => m.0 < 6 && m.1 < 7,
            None => true,
        },
    ensures
        score == spec_eval(board@, last_move),
        -1000000 <= score <= 1000000,
{
    if let Some((lr, lc)) = last_move {
        if board.winning_line_through(lr, lc) {
            if board.get(lr, lc) == Cell::Yellow {
                return 1000000;
            } else {
                return -1000000;
            }
        }
    }
    let centre = centre_score(board);
    let windows = window_scores(board);
    let bottom = bottom_row_penalty(board);
    let own_threats = count_threats(board, Cell::Yellow);
    let opp_threats = count_threats(board, Cell::Red);
    let stairs = detect_stairstep_patterns(board);
    centre + windows + bottom + own_threats * 25 - opp_threats * 30 + stairs
}

} // verus!
