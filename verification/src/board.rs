//! The 3x3 board: cell storage, placement with validation, clearing for
//! undo, and win detection over the eight lines.

use vstd::prelude::*;

use crate::player::Player;

verus! {

/// One square of the grid: empty, or marked by one of the two players.
#[derive(Clone, Copy, Debug, PartialEq, Eq, Structural)]
pub enum Cell {
    Empty,
    Marked(Player),
}

/// Why a placement was rejected. Coordinates are re-checked here even though
/// the command interpreter already restricts them to the grid.
#[derive(Clone, Copy, Debug, PartialEq, Eq, Structural)]
pub enum PlacementError {
    CoordinateOutOfRange,
    CellOccupied,
}

/// The flat index of the square at `(row, col)` in row-major order.
pub open spec fn cell_index(row: int, col: int) -> int {
    row * 3 + col
}

/// Both coordinates lie on the grid.
pub open spec fn coord_in_range(row: int, col: int) -> bool {
    0 <= row < 3 && 0 <= col < 3
}

/// The square of `cells` at `(row, col)`.
pub open spec fn cell_at(cells: Seq<Cell>, row: int, col: int) -> Cell {
    cells[cell_index(row, col)]
}

/// How `place` decides a request against a board with squares `cells`:
/// out-of-range coordinates are refused whatever the board holds, a marked
/// square is refused, and an empty square in range accepts the mark.
pub open spec fn place_error(cells: Seq<Cell>, row: int, col: int) -> Option<PlacementError> {
    if !coord_in_range(row, col) {
        Some(PlacementError::CoordinateOutOfRange)
    } else if cell_at(cells, row, col) is Marked {
        Some(PlacementError::CellOccupied)
    } else {
        None
    }
}

/// The three squares at flat indices `a`, `b`, `c` all carry `player`'s mark.
pub open spec fn line_won(cells: Seq<Cell>, player: Player, a: int, b: int, c: int) -> bool {
    &&& cells[a] == Cell::Marked(player)
    &&& cells[b] == Cell::Marked(player)
    &&& cells[c] == Cell::Marked(player)
}

/// `player` owns one of the eight winning lines: three rows, three columns,
/// and the two diagonals.
pub open spec fn wins(cells: Seq<Cell>, player: Player) -> bool {
    ||| line_won(cells, player, 0, 1, 2)
    ||| line_won(cells, player, 3, 4, 5)
    ||| line_won(cells, player, 6, 7, 8)
    ||| line_won(cells, player, 0, 3, 6)
    ||| line_won(cells, player, 1, 4, 7)
    ||| line_won(cells, player, 2, 5, 8)
    ||| line_won(cells, player, 0, 4, 8)
    ||| line_won(cells, player, 2, 4, 6)
}

/// Every square is marked.
pub open spec fn board_full(cells: Seq<Cell>) -> bool {
    forall|i: int| 0 <= i < 9 ==> cells[i] is Marked
}

/// The 3x3 grid, stored row-major as nine cells.
pub struct Board {
    cells: Vec<Cell>,
}

impl View for Board {
    type V = Seq<Cell>;

    closed spec fn view(&self) -> Seq<Cell> {
        self.cells@
    }
}

impl Board {
    /// The board holds exactly its nine squares.
    pub open spec fn wf(self) -> bool {
        self@.len() == 9
    }

    /// A fresh board with every square empty.
    pub fn new() -> (b: Board)
        ensures
            b.wf(),
            b@ =~= Seq::new(9, |i: int| Cell::Empty),
    {
        let mut cells: Vec<Cell> = Vec::new();
        let mut i: usize = 0;
        while i < 9
            invariant
                i <= 9,
                cells@.len() == i,
                forall|j: int| 0 <= j < i ==> cells@[j] == Cell::Empty,
            decreases 9 - i,
        {
            cells.push(Cell::Empty);
            i += 1;
        }
        Board { cells }
    }

    /// Reads the square at `(row, col)`.
    pub fn cell(&self, row: usize, col: usize) -> (c: Cell)
        requires
            self.wf(),
            row < 3,
            col < 3,
        ensures
            c == cell_at(self@, row as int, col as int),
    {
        self.cells[row * 3 + col]
    }

    /// Attempts to mark the square at `(row, col)` for `player`.
    ///
    /// Fails with `CoordinateOutOfRange` when either coordinate leaves the
    /// grid and with `CellOccupied` when the square is already marked, in
    /// both cases leaving the board untouched; otherwise marks the square
    /// and succeeds. `place_error` states exactly which of the three holds.
    pub fn place(&mut self, row: usize, col: usize, player: Player) -> (result: Result<
        (),
        PlacementError,
    >)
        requires
            old(self).wf(),
        ensures
            final(self).wf(),
            match place_error(old(self)@, row as int, col as int) {
                None => result == Ok::<(), PlacementError>(()) && final(self)@ == old(self)@.update(
                    cell_index(row as int, col as int),
                    Cell::Marked(player),
                ),
                Some(e) => result == Err::<(), PlacementError>(e) && final(self)@ == old(self)@,
            },
    {
        if row >= 3 || col >= 3 {
            return Err(PlacementError::CoordinateOutOfRange);
        }
        let idx = row * 3 + col;
        if self.cells[idx] == Cell::Empty {
            self.cells.set(idx, Cell::Marked(player));
            Ok(())
        } else {
            Err(PlacementError::CellOccupied)
        }
    }

    /// Sets the square at `(row, col)` back to empty. Undo calls this with
    /// the coordinate popped from the move history.
    pub fn clear(&mut self, row: usize, col: usize)
        requires
            old(self).wf(),
            row < 3,
            col < 3,
        ensures
            final(self).wf(),
            final(self)@ == old(self)@.update(cell_index(row as int, col as int), Cell::Empty),
    {
        self.cells.set(row * 3 + col, Cell::Empty);
    }

    /// True exactly when one of the eight lines — a row, a column, or a
    /// diagonal — is fully marked by `player`; false for every other
    /// configuration.
    pub fn check_winner(&self, player: Player) -> (won: bool)
        requires
            self.wf(),
        ensures
            won == wins(self@, player),
    {
        let mark = Cell::Marked(player);
        // The three rows and the three columns.
        if self.cells[0] == mark && self.cells[1] == mark && self.cells[2] == mark {
            return true;
        }
        if self.cells[3] == mark && self.cells[4] == mark && self.cells[5] == mark {
            return true;
        }
        if self.cells[6] == mark && self.cells[7] == mark && self.cells[8] == mark {
            return true;
        }
        if self.cells[0] == mark && self.cells[3] == mark && self.cells[6] == mark {
            return true;
        }
        if self.cells[1] == mark && self.cells[4] == mark && self.cells[7] == mark {
            return true;
        }
        if self.cells[2] == mark && self.cells[5] == mark && self.cells[8] == mark {
            return true;
        }
        // The two diagonals.
        (self.cells[0] == mark && self.cells[4] == mark && self.cells[8] == mark) || (self.cells[2]
            == mark && self.cells[4] == mark && self.cells[6] == mark)
    }

    /// True exactly when all nine squares are marked.
    pub fn is_full(&self) -> (full: bool)
        requires
            self.wf(),
        ensures
            full == board_full(self@),
    {
        let mut i: usize = 0;
        while i < 9
            invariant
                self.wf(),
                i <= 9,
                forall|j: int| 0 <= j < i ==> self@[j] is Marked,
            decreases 9 - i,
        {
            if self.cells[i] == Cell::Empty {
                return false;
            }
            i += 1;
        }
        true
    }
}

/// On the grid, a placement on an empty square succeeds, and a second
/// placement on the same square — with no undo in between — is refused as
/// occupied, whichever player marked it.
pub proof fn lemma_place_succeeds_once(cells: Seq<Cell>, row: int, col: int, player: Player)
    requires
        cells.len() == 9,
        coord_in_range(row, col),
        cell_at(cells, row, col) is Empty,
    ensures
        place_error(cells, row, col) is None,
        place_error(cells.update(cell_index(row, col), Cell::Marked(player)), row, col) == Some(
            PlacementError::CellOccupied,
        ),
{
}

/// A placement with a coordinate off the grid is refused as out of range,
/// whatever the board holds.
pub proof fn lemma_out_of_range_always_fails(cells: Seq<Cell>, row: int, col: int)
    requires
        row >= 3 || col >= 3 || row < 0 || col < 0,
    ensures
        place_error(cells, row, col) == Some(PlacementError::CoordinateOutOfRange),
{
}

} // verus!
