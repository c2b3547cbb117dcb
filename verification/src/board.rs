//! Marks, cells, and the mathematical model of a 3x3 board.
//!
//! A board is modelled as a sequence of nine cells in row-major order;
//! the spec functions here say what it means for a coordinate to be in
//! bounds, for the board to be full, and for a mark to have completed a
//! row, column, or diagonal.

use vstd::prelude::*;

verus! {

/// One of the two players' marks, conventionally shown as `X` and `O`.
#[derive(Copy, Clone, PartialEq, Eq, Structural, Debug)]
pub enum Player {
    X,
    O,
}

/// One board position: either empty or marked by a player.
#[derive(Copy, Clone, PartialEq, Eq, Structural, Debug)]
pub enum Cell {
    Empty,
    Taken(Player),
}

impl Player {
    /// The opposing mark.
    pub open spec fn spec_toggle(self) -> Player {
        match self {
            Player::X => Player::O,
            Player::O => Player::X,
        }
    }

    /// Returns the opposing mark: the one whose turn comes next.
    pub fn toggle(&self) -> (r: Player)
        ensures
            r == self.spec_toggle(),
    {
        match *self {
            Player::X => Player::O,
            Player::O => Player::X,
        }
    }

    /// The mark that a designator character names, if any.
    pub open spec fn spec_from_char(c: char) -> Option<Player> {
        if c == 'X' {
            Some(Player::X)
        } else if c == 'O' {
            Some(Player::O)
        } else {
            None
        }
    }

    /// Parses a starting-mark designator: `'X'` and `'O'` are the only
    /// recognized values; anything else is rejected with `None`.
    pub fn from_char(c: char) -> (r: Option<Player>)
        ensures
            r == Player::spec_from_char(c),
    {
        match c {
            'X' => Some(Player::X),
            'O' => Some(Player::O),
            _ => None,
        }
    }
}

/// The mark a starting-mark designator selects, falling back to the
/// canonical default `X` when the designator is unrecognized.
pub open spec fn start_mark(c: char) -> Player {
    match Player::spec_from_char(c) {
        Some(p) => p,
        None => Player::X,
    }
}

/// Whether a row and column pair addresses a cell of the 3x3 grid.
pub open spec fn in_bounds(r: int, c: int) -> bool {
    0 <= r < 3 && 0 <= c < 3
}

/// The row-major index of a cell within the board sequence.
pub open spec fn idx(r: int, c: int) -> int {
    r * 3 + c
}

/// A board holds exactly nine cells.
pub open spec fn is_board(b: Seq<Cell>) -> bool {
    b.len() == 9
}

/// The empty board every game starts from.
pub open spec fn init_board() -> Seq<Cell> {
    Seq::new(9, |i: int| Cell::Empty)
}

/// Whether every cell of the board is marked.
pub open spec fn full(b: Seq<Cell>) -> bool {
    forall|i: int| 0 <= i < 9 ==> b[i] != Cell::Empty
}

/// Whether the three cells at the given indices all hold the given mark.
pub open spec fn line_taken(b: Seq<Cell>, p: Player, i0: int, i1: int, i2: int) -> bool {
    b[i0] == Cell::Taken(p) && b[i1] == Cell::Taken(p) && b[i2] == Cell::Taken(p)
}

/// Whether the mark has completed one of the eight lines: three rows,
/// three columns, or two diagonals.
pub open spec fn wins(b: Seq<Cell>, p: Player) -> bool {
    ||| line_taken(b, p, 0, 1, 2)
    ||| line_taken(b, p, 3, 4, 5)
    ||| line_taken(b, p, 6, 7, 8)
    ||| line_taken(b, p, 0, 3, 6)
    ||| line_taken(b, p, 1, 4, 7)
    ||| line_taken(b, p, 2, 5, 8)
    ||| line_taken(b, p, 0, 4, 8)
    ||| line_taken(b, p, 2, 4, 6)
}

} // verus!
