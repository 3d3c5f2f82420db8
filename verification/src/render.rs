//! Rendering the board as text: three rows of cells separated by `|`, a
//! horizontal rule of dashes above every row and below the last.

use vstd::prelude::*;

use crate::board::{Board, Cell, cell_at};
use crate::player::Player;

verus! {

/// The one-character text of a square: the player's mark, or a blank.
pub open spec fn cell_chars(c: Cell) -> Seq<char> {
    match c {
        Cell::Empty => " "@,
        Cell::Marked(Player::X) => "X"@,
        Cell::Marked(Player::O) => "O"@,
    }
}

/// One rendered row: the rule of dashes, then the row's three squares
/// between `|` separators.
pub open spec fn row_chars(cells: Seq<Cell>, r: int) -> Seq<char> {
    "     -------\n     |"@ + cell_chars(cell_at(cells, r, 0)) + "|"@ + cell_chars(
        cell_at(cells, r, 1),
    ) + "|"@ + cell_chars(cell_at(cells, r, 2)) + "|\n"@
}

/// The full rendering: a blank line, the three rows, and the closing rule
/// followed by a blank line.
pub open spec fn render_chars(cells: Seq<Cell>) -> Seq<char> {
    "\n"@ + row_chars(cells, 0) + row_chars(cells, 1) + row_chars(cells, 2)
        + "     -------\n\n"@
}

fn mark_str(c: Cell) -> (s: &'static str)
    ensures
        s@ == cell_chars(c),
{
    match c {
        Cell::Empty => " ",
        Cell::Marked(Player::X) => "X",
        Cell::Marked(Player::O) => "O",
    }
}

fn append_row(s: &mut String, b: &Board, r: usize)
    requires
        b.wf(),
        r < 3,
    ensures
        final(s)@ == old(s)@ + row_chars(b@, r as int),
{
    s.append("     -------\n     |");
    s.append(mark_str(b.cell(r, 0)));
    s.append("|");
    s.append(mark_str(b.cell(r, 1)));
    s.append("|");
    s.append(mark_str(b.cell(r, 2)));
    s.append("|\n");
    proof {
        assert(s@ =~= old(s)@ + row_chars(b@, r as int));
    }
}

/// Renders the board, exactly as `render_chars` lays it out.
pub fn render_board(b: &Board) -> (s: String)
    requires
        b.wf(),
    ensures
        s@ == render_chars(b@),
{
    let mut s = String::from_str("\n");
    append_row(&mut s, b, 0);
    append_row(&mut s, b, 1);
    append_row(&mut s, b, 2);
    s.append("     -------\n\n");
    proof {
        assert(s@ =~= render_chars(b@));
    }
    s
}

} // verus!
