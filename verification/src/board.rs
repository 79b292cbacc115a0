//! The 6-row by 7-column Connect Four grid.
//!
//! A board is a flat vector of 42 cells in row-major order, row 0 at the
//! top and row 5 at the bottom. Pieces are subject to gravity: a drop into
//! a column lands in the lowest empty row of that column.

use vstd::prelude::*;

verus! {

/// One cell of the grid: empty, or a piece of one of the two sides.
/// Red is the human side and moves first; Yellow is the machine side.
#[derive(Clone, Copy, PartialEq, Eq, Structural, Debug)]
pub enum Cell {
    Empty,
    Red,
    Yellow,
}

/// The cell in row `r`, column `c` of a row-major board sequence.
pub open spec fn cell_at(b: Seq<Cell>, r: int, c: int) -> Cell {
    b[r * 7 + c]
}

/// A piece may be dropped into column `c` iff the column exists and its
/// topmost cell is still empty.
pub open spec fn col_playable(b: Seq<Cell>, c: int) -> bool {
    0 <= c < 7 && cell_at(b, 0, c) == Cell::Empty
}

/// The board is full iff no cell of the top row is empty.
pub open spec fn board_full(b: Seq<Cell>) -> bool {
    forall|c: int| 0 <= c < 7 ==> cell_at(b, 0, c) != Cell::Empty
}

/// Helper for `drop_row`: the lowest empty row of column `c` at or below
/// row `r`, or row 0 when all of them are occupied.
pub open spec fn drop_row_from(b: Seq<Cell>, c: int, r: int) -> int
    decreases r,
{
    if r <= 0 {
        0
    } else if cell_at(b, r, c) == Cell::Empty {
        r
    } else {
        drop_row_from(b, c, r - 1)
    }
}

/// The row where a piece dropped into column `c` lands: the lowest empty
/// row of the column. Meaningful only when the column is playable.
pub open spec fn drop_row(b: Seq<Cell>, c: int) -> int {
    drop_row_from(b, c, 5)
}

/// The board after a piece of side `p` is dropped into column `c`.
pub open spec fn board_after_drop(b: Seq<Cell>, c: int, p: Cell) -> Seq<Cell> {
    b.update(drop_row(b, c) * 7 + c, p)
}

/// A horizontal four-in-a-row of side `p` whose leftmost cell is (r, c).
pub open spec fn win_h(b: Seq<Cell>, r: int, c: int, p: Cell) -> bool {
    &&& p != Cell::Empty
    &&& 0 <= r < 6
    &&& 0 <= c <= 3
    &&& cell_at(b, r, c) == p
    &&& cell_at(b, r, c + 1) == p
    &&& cell_at(b, r, c + 2) == p
    &&& cell_at(b, r, c + 3) == p
}

/// A vertical four-in-a-row of side `p` whose topmost cell is (r, c).
pub open spec fn win_v(b: Seq<Cell>, r: int, c: int, p: Cell) -> bool {
    &&& p != Cell::Empty
    &&& 0 <= r <= 2
    &&& 0 <= c < 7
    &&& cell_at(b, r, c) == p
    &&& cell_at(b, r + 1, c) == p
    &&& cell_at(b, r + 2, c) == p
    &&& cell_at(b, r + 3, c) == p
}

/// A four-in-a-row of side `p` running down-right from (r, c).
pub open spec fn win_dr(b: Seq<Cell>, r: int, c: int, p: Cell) -> bool {
    &&& p != Cell::Empty
    &&& 0 <= r <= 2
    &&& 0 <= c <= 3
    &&& cell_at(b, r, c) == p
    &&& cell_at(b, r + 1, c + 1) == p
    &&& cell_at(b, r + 2, c + 2) == p
    &&& cell_at(b, r + 3, c + 3) == p
}

/// A four-in-a-row of side `p` running up-right from (r, c).
pub open spec fn win_ur(b: Seq<Cell>, r: int, c: int, p: Cell) -> bool {
    &&& p != Cell::Empty
    &&& 3 <= r < 6
    &&& 0 <= c <= 3
    &&& cell_at(b, r, c) == p
    &&& cell_at(b, r - 1, c + 1) == p
    &&& cell_at(b, r - 2, c + 2) == p
    &&& cell_at(b, r - 3, c + 3) == p
}

/// Some four-in-a-row of the piece standing at (r, c) passes through
/// (r, c) along one of the four line directions. The run may extend to
/// either side of the cell, so every window containing the cell counts.
pub open spec fn line_win_through(b: Seq<Cell>, r: int, c: int) -> bool {
    let p = cell_at(b, r, c);
    ||| exists|s: int| c - 3 <= s <= c && #[trigger] win_h(b, r, s, p)
    ||| exists|s: int| r - 3 <= s <= r && #[trigger] win_v(b, s, c, p)
    ||| exists|r0: int, c0: int|
        #[trigger] win_dr(b, r0, c0, p) && r - r0 == c - c0 && r0 <= r <= r0 + 3
    ||| exists|r0: int, c0: int|
        #[trigger] win_ur(b, r0, c0, p) && r0 - r == c - c0 && r0 - 3 <= r <= r0
}

/// Law: a horizontal four-in-a-row is detected through each of its cells,
/// whichever side of the cell the run extends to.
pub proof fn lemma_h_win_detected(b: Seq<Cell>, r: int, c: int, s: int)
    requires
        win_h(b, r, s, cell_at(b, r, c)),
        s <= c <= s + 3,
    ensures
        line_win_through(b, r, c),
{
}

/// Law: a vertical four-in-a-row is detected through each of its cells.
pub proof fn lemma_v_win_detected(b: Seq<Cell>, r: int, c: int, s: int)
    requires
        win_v(b, s, c, cell_at(b, r, c)),
        s <= r <= s + 3,
    ensures
        line_win_through(b, r, c),
{
}

/// Law: a down-right four-in-a-row is detected through each of its cells.
pub proof fn lemma_dr_win_detected(b: Seq<Cell>, r: int, c: int, r0: int, c0: int)
    requires
        win_dr(b, r0, c0, cell_at(b, r, c)),
        r - r0 == c - c0,
        r0 <= r <= r0 + 3,
    ensures
        line_win_through(b, r, c),
{
}

/// Law: an up-right four-in-a-row is detected through each of its cells.
pub proof fn lemma_ur_win_detected(b: Seq<Cell>, r: int, c: int, r0: int, c0: int)
    requires
        win_ur(b, r0, c0, cell_at(b, r, c)),
        r0 - r == c - c0,
        r0 - 3 <= r <= r0,
    ensures
        line_win_through(b, r, c),
{
}

/// The 6x7 grid, stored row-major with row 0 on top.
pub struct Board {
    cells: Vec<Cell>,
}

impl View for Board {
    type V = Seq<Cell>;

    closed spec fn view(&self) -> Seq<Cell> {
        self.cells@
    }
}

impl Board {
    /// A board is well formed when it holds exactly the 42 cells of the grid.
    pub open spec fn wf(&self) -> bool {
        self@.len() == 42
    }

    /// The empty starting board.
    pub fn new() -> (b: Board)
        ensures
            b.wf(),
            forall|i: int| 0 <= i < 42 ==> b@[i] == Cell::Empty,
    {
        let mut cells: Vec<Cell> = Vec::new();
        let mut i: usize = 0;
        while i < 42
            invariant
                i == cells.len(),
                i <= 42,
                forall|j: int| 0 <= j < i ==> cells@[j] == Cell::Empty,
            decreases 42 - i,
        {
            cells.push(Cell::Empty);
            i = i + 1;
        }
        Board { cells }
    }

    /// Read the cell in row `r`, column `c`.
    pub fn get(&self, r: usize, c: usize) -> (cell: Cell)
        requires
            self.wf(),
            r < 6,
            c < 7,
        ensures
            cell == cell_at(self@, r as int, c as int),
    {
        self.cells[r * 7 + c]
    }

    /// Overwrite the cell in row `r`, column `c`. This is the raw cell
    /// update used to set up positions and to simulate moves; gravity is
    /// the caller's concern.
    pub fn set_cell(&mut self, r: usize, c: usize, cell: Cell)
        requires
            old(self).wf(),
            r < 6,
            c < 7,
        ensures
            final(self).wf(),
            final(self)@ == old(self)@.update(r * 7 + c, cell),
    {
        self.cells.set(r * 7 + c, cell);
    }

    /// An identical copy of the board.
    pub fn duplicate(&self) -> (b: Board)
        requires
            self.wf(),
        ensures
            b.wf(),
            b@ == self@,
    {
        let mut cells: Vec<Cell> = Vec::new();
        let mut i: usize = 0;
        while i < 42
            invariant
                self.wf(),
                i == cells.len(),
                i <= 42,
                forall|j: int| 0 <= j < i ==> cells@[j] == self@[j],
            decreases 42 - i,
        {
            cells.push(self.cells[i]);
            i = i + 1;
        }
        let b = Board { cells };
        assert(b@ =~= self@);
        b
    }

    /// A move into column `c` is legal iff the column exists and its top
    /// cell is empty.
    pub fn is_valid_move(&self, c: usize) -> (res: bool)
        requires
            self.wf(),
        ensures
            res == col_playable(self@, c as int),
    {
        c < 7 && self.get(0, c) == Cell::Empty
    }

    /// Whether the whole board is full, i.e. the top row has no empty cell.
    pub fn is_full(&self) -> (res: bool)
        requires
            self.wf(),
        ensures
            res == board_full(self@),
    {
        let mut c: usize = 0;
        while c < 7
            invariant
                self.wf(),
                c <= 7,
                forall|c2: int| 0 <= c2 < c ==> cell_at(self@, 0, c2) != Cell::Empty,
            decreases 7 - c,
        {
            if self.get(0, c) == Cell::Empty {
                return false;
            }
            c = c + 1;
        }
        true
    }

    /// The row where a piece dropped into column `c` would land: the lowest
    /// empty row, found by scanning upward from the bottom.
    pub fn landing_row(&self, c: usize) -> (r: usize)
        requires
            self.wf(),
            c < 7,
        ensures
            r < 6,
            r == drop_row(self@, c as int),
            col_playable(self@, c as int) ==> cell_at(self@, r as int, c as int) == Cell::Empty,
            forall|rr: int| r < rr < 6 ==> cell_at(self@, rr, c as int) != Cell::Empty,
    {
        let mut r: usize = 5;
        loop
            invariant
                self.wf(),
                c < 7,
                r < 6,
                forall|rr: int| r < rr < 6 ==> cell_at(self@, rr, c as int) != Cell::Empty,
                drop_row(self@, c as int) == drop_row_from(self@, c as int, r as int),
            ensures
                r < 6,
                r == 0 || cell_at(self@, r as int, c as int) == Cell::Empty,
                forall|rr: int| r < rr < 6 ==> cell_at(self@, rr, c as int) != Cell::Empty,
                drop_row(self@, c as int) == drop_row_from(self@, c as int, r as int),
            decreases r,
        {
            if r == 0 {
                break;
            }
            if self.get(r, c) == Cell::Empty {
                break;
            }
            r = r - 1;
        }
        r
    }

    /// Whether a four-in-a-row of the piece at (r, c) passes through (r, c)
    /// in any of the four directions. The scan covers every window
    /// containing the cell, so runs extending to either side are found.
    pub fn winning_line_through(&self, r: usize, c: usize) -> (res: bool)
        requires
            self.wf(),
            r < 6,
            c < 7,
        ensures
            res == line_win_through(self@, r as int, c as int),
    {
        let p = self.get(r, c);
        if p == Cell::Empty {
            return false;
        }

        // Horizontal windows containing column c.
        let h_lo: usize = if c >= 3 { c - 3 } else { 0 };
        let h_hi: usize = if c <= 3 { c } else { 3 };
        let mut s: usize = h_lo;
        while s <= h_hi
            invariant
                self.wf(),
                r < 6,
                c < 7,
                p == cell_at(self@, r as int, c as int),
                p != Cell::Empty,
                h_lo <= s <= h_hi + 1,
                h_hi <= 3,
                h_lo == if c >= 3 { c - 3 } else { 0 },
                h_hi == if c <= 3 { c as int } else { 3 },
                forall|s2: int| h_lo <= s2 < s ==> !win_h(self@, r as int, s2, p),
            decreases h_hi + 1 - s,
        {
            if self.get(r, s) == p && self.get(r, s + 1) == p && self.get(r, s + 2) == p
                && self.get(r, s + 3) == p {
                assert(win_h(self@, r as int, s as int, p));
                return true;
            }
            s = s + 1;
        }

        // Vertical windows containing row r.
        let v_lo: usize = if r >= 3 { r - 3 } else { 0 };
        let v_hi: usize = if r <= 2 { r } else { 2 };
        let mut s: usize = v_lo;
        while s <= v_hi
            invariant
                self.wf(),
                r < 6,
                c < 7,
                p == cell_at(self@, r as int, c as int),
                p != Cell::Empty,
                v_lo <= s <= v_hi + 1,
                v_hi <= 2,
                v_lo == if r >= 3 { r - 3 } else { 0 },
                v_hi == if r <= 2 { r as int } else { 2 },
                forall|s2: int| v_lo <= s2 < s ==> !win_v(self@, s2, c as int, p),
                forall|s2: int| c - 3 <= s2 <= c ==> !win_h(self@, r as int, s2, p),
            decreases v_hi + 1 - s,
        {
            if self.get(s, c) == p && self.get(s + 1, c) == p && self.get(s + 2, c) == p
                && self.get(s + 3, c) == p {
                assert(win_v(self@, s as int, c as int, p));
                return true;
            }
            s = s + 1;
        }

        // Down-right windows through (r, c): window start (r - k, c - k).
        let mut dr_lo: usize = 0;
        if r >= 2 && r - 2 > dr_lo {
            dr_lo = r - 2;
        }
        if c >= 3 && c - 3 > dr_lo {
            dr_lo = c - 3;
        }
        let mut dr_hi: usize = 3;
        if r < dr_hi {
            dr_hi = r;
        }
        if c < dr_hi {
            dr_hi = c;
        }
        let mut k: usize = dr_lo;
        while k <= dr_hi
            invariant
                self.wf(),
                r < 6,
                c < 7,
                p == cell_at(self@, r as int, c as int),
                p != Cell::Empty,
                dr_lo <= k,
                dr_hi <= 3,
                dr_lo >= r - 2 && dr_lo >= c - 3,
                dr_lo == 0 || dr_lo == r - 2 || dr_lo == c - 3,
                dr_hi <= r && dr_hi <= c,
                dr_hi == 3 || dr_hi == r || dr_hi == c,
                forall|r0: int, c0: int|
                    (r - r0 == c - c0 && dr_lo <= r - r0 < k) ==> !(#[trigger] win_dr(
                        self@,
                        r0,
                        c0,
                        p,
                    )),
            decreases dr_hi + 1 - k,
        {
            if k <= r && k <= c {
                let r0 = r - k;
                let c0 = c - k;
                if r0 <= 2 && c0 <= 3 {
                    if self.get(r0, c0) == p && self.get(r0 + 1, c0 + 1) == p
                        && self.get(r0 + 2, c0 + 2) == p && self.get(r0 + 3, c0 + 3) == p {
                        assert(win_dr(self@, r0 as int, c0 as int, p));
                        return true;
                    }
                }
            }
            k = k + 1;
        }

        // Up-right windows through (r, c): window start (r + k, c - k).
        let mut ur_lo: usize = 0;
        if 3 > r && 3 - r > ur_lo {
            ur_lo = 3 - r;
        }
        if c >= 3 && c - 3 > ur_lo {
            ur_lo = c - 3;
        }
        let mut ur_hi: usize = 3;
        if 5 - r < ur_hi {
            ur_hi = 5 - r;
        }
        if c < ur_hi {
            ur_hi = c;
        }
        let mut k: usize = ur_lo;
        while k <= ur_hi
            invariant
                self.wf(),
                r < 6,
                c < 7,
                p == cell_at(self@, r as int, c as int),
                p != Cell::Empty,
                ur_lo <= k,
                ur_hi <= 3,
                ur_lo >= 3 - r && ur_lo >= c - 3,
                ur_lo == 0 || ur_lo == 3 - r || ur_lo == c - 3,
                ur_hi <= 5 - r && ur_hi <= c,
                ur_hi == 3 || ur_hi == 5 - r || ur_hi == c,
                forall|r0: int, c0: int|
                    (r0 - r == c - c0 && ur_lo <= r0 - r < k) ==> !(#[trigger] win_ur(
                        self@,
                        r0,
                        c0,
                        p,
                    )),
            decreases ur_hi + 1 - k,
        {
            if k <= c && r + k <= 5 {
                let r0 = r + k;
                let c0 = c - k;
                if r0 >= 3 && c0 <= 3 {
                    if self.get(r0, c0) == p && self.get(r0 - 1, c0 + 1) == p
                        && self.get(r0 - 2, c0 + 2) == p && self.get(r0 - 3, c0 + 3) == p {
                        assert(win_ur(self@, r0 as int, c0 as int, p));
                        return true;
                    }
                }
            }
            k = k + 1;
        }

        assert(!line_win_through(self@, r as int, c as int));
        false
    }
}

} // verus!
