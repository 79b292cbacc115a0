//! A Connect Four game: a board, the side to move, and the terminal status.
//!
//! The board is mutated only through `drop_piece`, which applies the gravity
//! rule, refuses illegal columns, and updates the terminal status from the
//! line detection of the `board` module.

use vstd::prelude::*;

use crate::board::{board_full, cell_at, col_playable, drop_row, line_win_through, Board, Cell};

verus! {

/// The error returned when a drop is attempted into a full or nonexistent
/// column, or after the game has ended.
#[derive(Clone, Copy, PartialEq, Eq, Structural, Debug)]
pub struct InvalidMove;

/// The side that moves after `p`.
pub open spec fn spec_other(p: Cell) -> Cell {
    if p == Cell::Red {
        Cell::Yellow
    } else {
        Cell::Red
    }
}

/// The full transition relation of one accepted move into column `c`:
/// the dropped piece lands on the lowest empty row, the last move is
/// recorded, and the terminal status follows from the new board.
pub open spec fn move_applied(pre: Game, post: Game, c: int) -> bool {
    let row = drop_row(pre.board@, c);
    let b2 = pre.board@.update(row * 7 + c, pre.current_player);
    &&& post.board@ == b2
    &&& post.last_move == Some(((row as usize), (c as usize)))
    &&& if line_win_through(b2, row, c) {
        &&& post.game_over
        &&& post.winner == Some(pre.current_player)
        &&& post.current_player == pre.current_player
    } else if board_full(b2) {
        &&& post.game_over
        &&& post.winner == pre.winner
        &&& post.current_player == pre.current_player
    } else {
        &&& post.game_over == pre.game_over
        &&& post.winner == pre.winner
        &&& post.current_player == spec_other(pre.current_player)
    }
}

/// One Connect Four game in progress.
pub struct Game {
    pub board: Board,
    pub current_player: Cell,
    pub game_over: bool,
    pub winner: Option<Cell>,
    pub last_move: Option<(usize, usize)>,
}

impl Game {
    /// A game is well formed when its board has the 6x7 shape, a real side
    /// is to move, and the recorded last move lies on the board.
    pub open spec fn wf(&self) -> bool {
        &&& self.board.wf()
        &&& self.current_player != Cell::Empty
        &&& match self.last_move {
            Some(m) => m.0 < 6 && m.1 < 7,
            None => true,
        }
    }

    /// A fresh game: empty board, Red to move first.
    pub fn new() -> (g: Game)
        ensures
            g.wf(),
            forall|i: int| 0 <= i < 42 ==> g.board@[i] == Cell::Empty,
            g.current_player == Cell::Red,
            !g.game_over,
            g.winner == None::<Cell>,
            g.last_move == None::<(usize, usize)>,
    {
        Game {
            board: Board::new(),
            current_player: Cell::Red,
            game_over: false,
            winner: None,
            last_move: None,
        }
    }

    /// An ongoing game resumed from an arbitrary position, for callers that
    /// set up a board cell by cell.
    pub fn from_position(board: Board, current_player: Cell, last_move: Option<(usize, usize)>) -> (g:
        Game)
        requires
            board.wf(),
            current_player != Cell::Empty,
            match last_move {
                Some(m) => m.0 < 6 && m.1 < 7,
                None => true,
            },
        ensures
            g.wf(),
            g.board == board,
            g.current_player == current_player,
            g.last_move == last_move,
            !g.game_over,
            g.winner == None::<Cell>,
    {
        Game { board, current_player, game_over: false, winner: None, last_move }
    }

    /// Whether the given column can take a piece right now.
    pub fn is_valid_move(&self, c: usize) -> (res: bool)
        requires
            self.wf(),
        ensures
            res == col_playable(self.board@, c as int),
    {
        self.board.is_valid_move(c)
    }

    /// Drop the active side's piece into column `c` and return the landing
    /// row. The piece lands on the lowest empty row of the column: every
    /// row below the landing row was already occupied. The move is refused
    /// with `InvalidMove`, and nothing changes, iff the column is full or
    /// out of range or the game is already over.
    pub fn drop_piece(&mut self, c: usize) -> (res: Result<usize, InvalidMove>)
        requires
            old(self).wf(),
        ensures
            final(self).wf(),
            match res {
                Ok(row) => {
                    &&& !old(self).game_over
                    &&& col_playable(old(self).board@, c as int)
                    &&& row < 6
                    &&& row == drop_row(old(self).board@, c as int)
                    &&& cell_at(old(self).board@, row as int, c as int) == Cell::Empty
                    &&& forall|rr: int|
                        row < rr < 6 ==> cell_at(old(self).board@, rr, c as int) != Cell::Empty
                    &&& move_applied(*old(self), *final(self), c as int)
                },
                Err(_) => {
                    &&& (old(self).game_over || !col_playable(old(self).board@, c as int))
                    &&& *final(self) == *old(self)
                },
            },
    {
        if self.game_over || !self.board.is_valid_move(c) {
            return Err(InvalidMove);
        }
        let row = self.board.landing_row(c);
        let me = self.current_player;
        self.board.set_cell(row, c, me);
        self.last_move = Some((row, c));
        if self.board.winning_line_through(row, c) {
            self.game_over = true;
            self.winner = Some(me);
            return Ok(row);
        }
        if self.board.is_full() {
            self.game_over = true;
            return Ok(row);
        }
        self.current_player = if me == Cell::Red {
            Cell::Yellow
        } else {
            Cell::Red
        };
        Ok(row)
    }

    /// Whether the most recent move completed a four-in-a-row. False when
    /// no move has been made yet.
    pub fn check_winner(&self) -> (res: bool)
        requires
            self.wf(),
        ensures
            res == match self.last_move {
                None => false,
                Some(m) => line_win_through(self.board@, m.0 as int, m.1 as int),
            },
    {
        match self.last_move {
            None => false,
            Some((r, c)) => self.board.winning_line_through(r, c),
        }
    }
}

} // verus!
