//! Textual rendering of marks and boards.
//!
//! A board renders as three lines, one per row, each row as its three
//! cells separated by `" | "`, with a space standing for an empty cell.
//! Rendering is a pure function of the board: nothing is mutated.

use vstd::prelude::*;
use vstd::string::StringExecFns;

use crate::board::{Cell, Player, idx};
use crate::game::Game;

verus! {

/// The character a mark displays as.
pub open spec fn player_char(p: Player) -> char {
    match p {
        Player::X => 'X',
        Player::O => 'O',
    }
}

/// The character a cell displays as: its mark, or a space when empty.
pub open spec fn cell_char(c: Cell) -> char {
    match c {
        Cell::Empty => ' ',
        Cell::Taken(p) => player_char(p),
    }
}

/// The characters of one rendered row, newline included.
pub open spec fn row_chars(b: Seq<Cell>, r: int) -> Seq<char> {
    seq![
        cell_char(b[idx(r, 0)]),
        ' ',
        '|',
        ' ',
        cell_char(b[idx(r, 1)]),
        ' ',
        '|',
        ' ',
        cell_char(b[idx(r, 2)]),
        '\n',
    ]
}

/// The characters of the whole rendered board: its three rows in order.
pub open spec fn render_chars(b: Seq<Cell>) -> Seq<char> {
    row_chars(b, 0) + row_chars(b, 1) + row_chars(b, 2)
}

impl Player {
    /// The display character of this mark.
    pub fn to_char(&self) -> (r: char)
        ensures
            r == player_char(*self),
    {
        match *self {
            Player::X => 'X',
            Player::O => 'O',
        }
    }
}

/// The one-character text of a cell.
fn cell_text(c: Cell) -> (r: &'static str)
    ensures
        r@ == seq![cell_char(c)],
{
    match c {
        Cell::Empty => {
            proof {
                reveal_strlit(" ");
                assert(" "@ =~= seq![' ']);
            }
            " "
        },
        Cell::Taken(Player::X) => {
            proof {
                reveal_strlit("X");
                assert("X"@ =~= seq!['X']);
            }
            "X"
        },
        Cell::Taken(Player::O) => {
            proof {
                reveal_strlit("O");
                assert("O"@ =~= seq!['O']);
            }
            "O"
        },
    }
}

/// Appends one rendered row, newline included, to the output.
fn push_row(s: &mut String, c0: Cell, c1: Cell, c2: Cell)
    ensures
        final(s)@ == old(s)@ + seq![
            cell_char(c0),
            ' ',
            '|',
            ' ',
            cell_char(c1),
            ' ',
            '|',
            ' ',
            cell_char(c2),
            '\n',
        ],
{
    proof {
        reveal_strlit(" | ");
        reveal_strlit("\n");
    }
    s.append(cell_text(c0));
    s.append(" | ");
    s.append(cell_text(c1));
    s.append(" | ");
    s.append(cell_text(c2));
    s.append("\n");
    proof {
        assert(s@ =~= old(s)@ + seq![
            cell_char(c0),
            ' ',
            '|',
            ' ',
            cell_char(c1),
            ' ',
            '|',
            ' ',
            cell_char(c2),
            '\n',
        ]);
    }
}

impl Game {
    /// Produces the human-readable depiction of the board: three lines,
    /// each row's cells separated by `" | "`, empty cells shown as a
    /// space. Pure query: the state is not changed.
    pub fn render(&self) -> (r: String)
        requires
            self.wf(),
        ensures
            r@ == render_chars(self.cells()),
    {
        proof {
            reveal_strlit("");
        }
        let mut s = String::from_str("");
        push_row(&mut s, self.cell_at(0), self.cell_at(1), self.cell_at(2));
        push_row(&mut s, self.cell_at(3), self.cell_at(4), self.cell_at(5));
        push_row(&mut s, self.cell_at(6), self.cell_at(7), self.cell_at(8));
        proof {
            assert(s@ =~= render_chars(self.cells()));
        }
        s
    }
}

} // verus!
