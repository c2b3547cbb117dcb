//! The game state: a board plus the active mark, with validated placement.
//!
//! `step_cells` and `step_active` are the mathematical transition that a
//! `play_move` call performs; every contract below is stated over them and
//! over the board model of `crate::board`.

use vstd::prelude::*;

use crate::board::{
    Cell, Player, full, idx, in_bounds, init_board, is_board, line_taken, start_mark, wins,
};

verus! {

/// Whether a placement at the given coordinates succeeds on this board:
/// the coordinates are in range and the target cell is still empty.
pub open spec fn place_allowed(b: Seq<Cell>, r: int, c: int) -> bool {
    in_bounds(r, c) && b[idx(r, c)] == Cell::Empty
}

/// The board after a placement attempt: the target cell takes the active
/// mark if the placement is allowed, and nothing changes otherwise.
pub open spec fn step_cells(b: Seq<Cell>, p: Player, r: int, c: int) -> Seq<Cell> {
    if place_allowed(b, r, c) {
        b.update(idx(r, c), Cell::Taken(p))
    } else {
        b
    }
}

/// The active mark after a placement attempt: it toggles exactly when the
/// placement is allowed, and never otherwise.
pub open spec fn step_active(b: Seq<Cell>, p: Player, r: int, c: int) -> Player {
    if place_allowed(b, r, c) {
        p.spec_toggle()
    } else {
        p
    }
}

/// The state of one tic-tac-toe session: the nine cells in row-major
/// order and the mark whose turn it is.
pub struct Game {
    board: Vec<Cell>,
    current_player: Player,
}

impl Game {
    /// The board contents, as a row-major sequence of nine cells.
    pub closed spec fn cells(self) -> Seq<Cell> {
        self.board@
    }

    /// The mark whose turn it currently is.
    pub closed spec fn active(self) -> Player {
        self.current_player
    }

    /// Structural invariant: the board holds exactly nine cells.
    pub open spec fn wf(self) -> bool {
        is_board(self.cells())
    }

    /// Creates a game with an empty board and the given starting mark.
    pub fn new(start_player: Player) -> (g: Game)
        ensures
            g.wf(),
            g.cells() == init_board(),
            g.active() == start_player,
    {
        let mut board: Vec<Cell> = Vec::new();
        let mut i: usize = 0;
        while i < 9
            invariant
                i <= 9,
                board@.len() == i,
                forall|j: int| 0 <= j < i ==> board@[j] == Cell::Empty,
            decreases 9 - i,
        {
            board.push(Cell::Empty);
            i += 1;
        }
        proof {
            assert(board@ =~= init_board());
        }
        Game { board, current_player: start_player }
    }

    /// Creates a game from a starting-mark designator character.
    ///
    /// An unrecognized designator does not fail: the engine deliberately
    /// falls back to the default starting mark `X`.
    pub fn initialize(start: char) -> (g: Game)
        ensures
            g.wf(),
            g.cells() == init_board(),
            g.active() == start_mark(start),
    {
        let mark = match Player::from_char(start) {
            Some(p) => p,
            None => Player::X,
        };
        Game::new(mark)
    }

    /// Attempts to place the active mark at row `x`, column `y`.
    ///
    /// Succeeds exactly when the coordinates are in range and the cell is
    /// empty; on success the cell takes the active mark and the turn
    /// toggles, and on failure the state is left untouched.
    pub fn play_move(&mut self, x: usize, y: usize) -> (r: bool)
        requires
            old(self).wf(),
        ensures
            final(self).wf(),
            r == place_allowed(old(self).cells(), x as int, y as int),
            final(self).cells() == step_cells(
                old(self).cells(),
                old(self).active(),
                x as int,
                y as int,
            ),
            final(self).active() == step_active(
                old(self).cells(),
                old(self).active(),
                x as int,
                y as int,
            ),
    {
        if x < 3 && y < 3 {
            let i: usize = x * 3 + y;
            if self.board[i] == Cell::Empty {
                let mark = self.current_player;
                self.board.set(i, Cell::Taken(mark));
                self.current_player = mark.toggle();
                true
            } else {
                false
            }
        } else {
            false
        }
    }

    /// The mark whose turn it currently is. Pure query.
    pub fn active_mark(&self) -> (r: Player)
        ensures
            r == self.active(),
    {
        self.current_player
    }

    /// The cell at the given row-major index. Pure query.
    pub fn cell_at(&self, i: usize) -> (r: Cell)
        requires
            self.wf(),
            i < 9,
        ensures
            r == self.cells()[i as int],
    {
        self.board[i]
    }

    /// The mark completing the line at the three given cell indices, if
    /// the line is complete.
    fn line_mark(&self, i0: usize, i1: usize, i2: usize) -> (r: Option<Player>)
        requires
            self.wf(),
            i0 < 9,
            i1 < 9,
            i2 < 9,
        ensures
            match r {
                Some(p) => line_taken(self.cells(), p, i0 as int, i1 as int, i2 as int),
                None => forall|p: Player|
                    !line_taken(self.cells(), p, i0 as int, i1 as int, i2 as int),
            },
    {
        let c0 = self.board[i0];
        if c0 != Cell::Empty && c0 == self.board[i1] && c0 == self.board[i2] {
            match c0 {
                Cell::Taken(p) => Some(p),
                Cell::Empty => None,
            }
        } else {
            None
        }
    }

    /// Examines the three rows, three columns, and two diagonals, and
    /// returns the mark owning a complete line, or `None` when no line is
    /// complete. Pure query: the state is not changed.
    pub fn check_winner(&self) -> (r: Option<Player>)
        requires
            self.wf(),
        ensures
            match r {
                Some(p) => wins(self.cells(), p),
                None => forall|p: Player| !wins(self.cells(), p),
            },
            wins(self.cells(), Player::X) && !wins(self.cells(), Player::O) ==> r == Some(
                Player::X,
            ),
            wins(self.cells(), Player::O) && !wins(self.cells(), Player::X) ==> r == Some(
                Player::O,
            ),
    {
        if let Some(p) = self.line_mark(0, 1, 2) {
            return Some(p);
        }
        if let Some(p) = self.line_mark(0, 3, 6) {
            return Some(p);
        }
        if let Some(p) = self.line_mark(3, 4, 5) {
            return Some(p);
        }
        if let Some(p) = self.line_mark(1, 4, 7) {
            return Some(p);
        }
        if let Some(p) = self.line_mark(6, 7, 8) {
            return Some(p);
        }
        if let Some(p) = self.line_mark(2, 5, 8) {
            return Some(p);
        }
        if let Some(p) = self.line_mark(0, 4, 8) {
            return Some(p);
        }
        if let Some(p) = self.line_mark(2, 4, 6) {
            return Some(p);
        }
        None
    }

    /// Whether every cell is marked. Pure query: the state is not changed.
    pub fn is_full(&self) -> (r: bool)
        requires
            self.wf(),
        ensures
            r == full(self.cells()),
    {
        let mut i: usize = 0;
        while i < 9
            invariant
                self.wf(),
                i <= 9,
                forall|j: int| 0 <= j < i ==> self.cells()[j] != Cell::Empty,
            decreases 9 - i,
        {
            if self.board[i] == Cell::Empty {
                return false;
            }
            i += 1;
        }
        true
    }
}

} // verus!
