//! The game state machine: board, move history, current player and terminal
//! status, advanced one command at a time.
//!
//! `step_spec` is the mathematical transition function; the executable
//! `GameState::step` is proved to follow it exactly. The front end only
//! renders, reads a line, interprets it, and reports what `step` returns.

use vstd::prelude::*;

use crate::board::{Board, Cell, PlacementError, board_full, cell_at, cell_index, coord_in_range,
    place_error, wins};
use vstd::set_lib::{lemma_int_range, lemma_len_subset, lemma_subset_equality, set_int_range};
use crate::command::Command;
use crate::history::{Move, MoveHistory};
use crate::player::{Player, switch_player};

verus! {

/// Whether the game is still running, and if not, how it ended.
#[derive(Clone, Copy, Debug, PartialEq, Eq, Structural)]
pub enum Status {
    Ongoing,
    Won(Player),
    Draw,
}

/// What one step asks the front end to report to the user.
#[derive(Clone, Copy, Debug, PartialEq, Eq, Structural)]
pub enum StepReport {
    /// The most recent placement was taken back.
    MoveUndone,
    /// An undo was asked for with nothing on record.
    NothingToUndo,
    /// The mark was placed; the game goes on with the other player.
    Placed,
    /// The mark was placed and completed a line: the current player has won.
    PlacedAndWon,
    /// The placement named a coordinate off the grid.
    RejectedOutOfRange,
    /// The placement named a square that is already marked.
    RejectedOccupied,
    /// The line was not a command at all.
    RejectedMalformed,
}

/// The mathematical model of a game: the nine squares, the move record, the
/// player to move, and the terminal status.
#[verifier::ext_equal]
pub ghost struct GameModel {
    pub cells: Seq<Cell>,
    pub moves: Seq<Move>,
    pub current: Player,
    pub status: Status,
}

/// The model a fresh game starts from: every square empty, nothing on
/// record, `starting` to move, game ongoing.
pub open spec fn init_model(starting: Player) -> GameModel {
    GameModel {
        cells: Seq::new(9, |i: int| Cell::Empty),
        moves: Seq::empty(),
        current: starting,
        status: Status::Ongoing,
    }
}

/// The move names a square of the grid.
pub open spec fn move_on_grid(mv: Move) -> bool {
    mv.row < 3 && mv.col < 3
}

/// The square the move names carries a mark.
pub open spec fn marked_at(cells: Seq<Cell>, mv: Move) -> bool {
    cell_at(cells, mv.row as int, mv.col as int) is Marked
}

/// The coordinate `(r, c)` appears somewhere in the move record.
pub open spec fn recorded(moves: Seq<Move>, r: int, c: int) -> bool {
    exists|i: int|
        0 <= i < moves.len() && (#[trigger] moves[i]) == (Move {
            row: r as usize,
            col: c as usize,
        })
}

/// The invariants the engine maintains: nine squares; every recorded
/// coordinate on the grid; no coordinate recorded twice; a recorded
/// coordinate's square is marked, and a marked square's coordinate is
/// recorded — so the marked squares are exactly the recorded moves.
pub open spec fn model_wf(m: GameModel) -> bool {
    &&& m.cells.len() == 9
    &&& forall|i: int| 0 <= i < m.moves.len() ==> move_on_grid(#[trigger] m.moves[i])
    &&& forall|i: int, j: int| 0 <= i < j < m.moves.len() ==> m.moves[i] != m.moves[j]
    &&& forall|i: int| 0 <= i < m.moves.len() ==> marked_at(m.cells, #[trigger] m.moves[i])
    &&& forall|r: int, c: int|
        coord_in_range(r, c) && (#[trigger] cell_at(m.cells, r, c)) is Marked ==> recorded(
            m.moves,
            r,
            c,
        )
}

/// How one command advances a game: an undo pops the record and clears that
/// square, leaving the turn as it was; an invalid line changes nothing; a
/// placement is validated against the board, and on success is recorded and
/// either wins the game for the current player or passes the turn to the
/// other player.
pub open spec fn step_spec(m: GameModel, cmd: Command) -> (GameModel, StepReport) {
    match cmd {
        Command::Undo => {
            if m.moves.len() == 0 {
                (m, StepReport::NothingToUndo)
            } else {
                let mv = m.moves.last();
                (
                    GameModel {
                        cells: m.cells.update(
                            cell_index(mv.row as int, mv.col as int),
                            Cell::Empty,
                        ),
                        moves: m.moves.drop_last(),
                        ..m
                    },
                    StepReport::MoveUndone,
                )
            }
        },
        Command::Invalid => (m, StepReport::RejectedMalformed),
        Command::PlaceAt(row, col) => {
            match place_error(m.cells, row as int, col as int) {
                Some(PlacementError::CoordinateOutOfRange) => (m, StepReport::RejectedOutOfRange),
                Some(PlacementError::CellOccupied) => (m, StepReport::RejectedOccupied),
                None => {
                    let cells = m.cells.update(
                        cell_index(row as int, col as int),
                        Cell::Marked(m.current),
                    );
                    let moves = m.moves.push(Move { row, col });
                    if wins(cells, m.current) {
                        (
                            GameModel {
                                cells,
                                moves,
                                status: Status::Won(m.current),
                                ..m
                            },
                            StepReport::PlacedAndWon,
                        )
                    } else {
                        (
                            GameModel {
                                cells,
                                moves,
                                current: m.current.other(),
                                ..m
                            },
                            StepReport::Placed,
                        )
                    }
                },
            }
        },
    }
}

/// A running game: the board, the undoable record of moves, whose turn it
/// is, and whether the game has ended.
pub struct GameState {
    board: Board,
    history: MoveHistory,
    current: Player,
    status: Status,
}

impl View for GameState {
    type V = GameModel;

    closed spec fn view(&self) -> GameModel {
        GameModel {
            cells: self.board@,
            moves: self.history@,
            current: self.current,
            status: self.status,
        }
    }
}

impl GameState {
    /// The engine's invariants hold of this game.
    pub open spec fn wf(self) -> bool {
        model_wf(self@)
    }

    /// A fresh game with an empty board and `starting` to move.
    pub fn new(starting: Player) -> (g: GameState)
        ensures
            g.wf(),
            g@ =~= init_model(starting),
    {
        let g = GameState {
            board: Board::new(),
            history: MoveHistory::new(),
            current: starting,
            status: Status::Ongoing,
        };
        proof {
            assert forall|r: int, c: int|
                coord_in_range(r, c) implies !((#[trigger] cell_at(g@.cells, r, c)) is Marked) by {
                assert(0 <= cell_index(r, c) < 9);
            }
        }
        g
    }

    /// Whose turn it is.
    pub fn current_player(&self) -> (p: Player)
        ensures
            p == self@.current,
    {
        self.current
    }

    /// Whether the game is ongoing, won, or drawn.
    pub fn status(&self) -> (s: Status)
        ensures
            s == self@.status,
    {
        self.status
    }

    /// How many placements are on record.
    pub fn moves_len(&self) -> (n: usize)
        ensures
            n == self@.moves.len(),
    {
        self.history.len()
    }

    /// The board, for rendering and inspection.
    pub fn board(&self) -> (b: &Board)
        ensures
            b@ == self@.cells,
            self.wf() ==> b.wf(),
    {
        &self.board
    }

    /// The check that opens every iteration: with all nine squares placed
    /// and no winner, the game ends in a draw; otherwise it goes on
    /// unchanged.
    pub fn begin_turn(&mut self) -> (is_draw: bool)
        requires
            old(self).wf(),
            old(self)@.status is Ongoing,
        ensures
            final(self).wf(),
            is_draw == (old(self)@.moves.len() == 9),
            final(self)@.cells == old(self)@.cells,
            final(self)@.moves == old(self)@.moves,
            final(self)@.current == old(self)@.current,
            final(self)@.status == if old(self)@.moves.len() == 9 {
                Status::Draw
            } else {
                Status::Ongoing
            },
    {
        if self.history.len() == 9 {
            self.status = Status::Draw;
            true
        } else {
            false
        }
    }

    /// Advances the game by one interpreted command, exactly as `step_spec`
    /// says, and returns what to report to the user.
    pub fn step(&mut self, cmd: Command) -> (report: StepReport)
        requires
            old(self).wf(),
            old(self)@.status is Ongoing,
        ensures
            final(self).wf(),
            final(self)@ == step_spec(old(self)@, cmd).0,
            report == step_spec(old(self)@, cmd).1,
    {
        let ghost m = old(self)@;
        match cmd {
            Command::Undo => {
                match self.history.undo() {
                    Some(mv) => {
                        proof {
                            assert(m.moves[m.moves.len() - 1] == mv);
                            assert(move_on_grid(m.moves[m.moves.len() - 1]));
                        }
                        self.board.clear(mv.row, mv.col);
                        proof {
                            lemma_wf_after_undo(m);
                            assert(self@ =~= step_spec(m, cmd).0);
                        }
                        StepReport::MoveUndone
                    },
                    None => {
                        proof {
                            assert(self@ =~= m);
                        }
                        StepReport::NothingToUndo
                    },
                }
            },
            Command::Invalid => StepReport::RejectedMalformed,
            Command::PlaceAt(row, col) => {
                match self.board.place(row, col, self.current) {
                    Err(PlacementError::CoordinateOutOfRange) => StepReport::RejectedOutOfRange,
                    Err(PlacementError::CellOccupied) => StepReport::RejectedOccupied,
                    Ok(()) => {
                        self.history.record(Move { row, col });
                        proof {
                            lemma_wf_after_place(m, row as int, col as int);
                        }
                        if self.board.check_winner(self.current) {
                            self.status = Status::Won(self.current);
                            proof {
                                assert(self@ =~= step_spec(m, cmd).0);
                            }
                            StepReport::PlacedAndWon
                        } else {
                            self.current = switch_player(self.current);
                            proof {
                                assert(self@ =~= step_spec(m, cmd).0);
                            }
                            StepReport::Placed
                        }
                    },
                }
            },
        }
    }
}

/// Undo is a strict inverse of the most recent successful placement: a
/// placement that succeeds (the coordinate on the grid, the square empty)
/// followed by an undo restores the board to its exact pre-placement state
/// and the move record to its exact prior contents — in particular the
/// placed square is empty again and the record is one shorter. The turn is
/// not restored: undo never switches whose turn it is.
pub proof fn lemma_undo_inverts_place(m: GameModel, row: usize, col: usize)
    requires
        model_wf(m),
        place_error(m.cells, row as int, col as int) is None,
    ensures
        ({
            let (placed, report) = step_spec(m, Command::PlaceAt(row, col));
            let (undone, undo_report) = step_spec(placed, Command::Undo);
            &&& report == StepReport::Placed || report == StepReport::PlacedAndWon
            &&& undo_report == StepReport::MoveUndone
            &&& undone.cells == m.cells
            &&& undone.moves == m.moves
            &&& placed.moves.len() == m.moves.len() + 1
            &&& undone.moves.len() == placed.moves.len() - 1
        }),
{
    let (placed, report) = step_spec(m, Command::PlaceAt(row, col));
    let mv = Move { row, col };
    assert(placed.moves.last() == mv);
    assert(placed.moves.drop_last() =~= m.moves);
    assert(placed.cells.update(cell_index(row as int, col as int), Cell::Empty) =~= m.cells);
}

/// An undo with an empty move record changes nothing at all — not the
/// board, not the record, not the turn, not the status — and reports that
/// there is nothing to undo.
pub proof fn lemma_undo_on_empty_history(m: GameModel)
    requires
        m.moves.len() == 0,
    ensures
        step_spec(m, Command::Undo).0 == m,
        step_spec(m, Command::Undo).1 == StepReport::NothingToUndo,
{
}

/// The turn alternates strictly between the two players after each
/// successful, non-winning placement, and does not change on an undo, on a
/// winning placement, or on any rejected command.
pub proof fn lemma_turn_alternation(m: GameModel, cmd: Command)
    ensures
        ({
            let (next, report) = step_spec(m, cmd);
            &&& report == StepReport::Placed ==> next.current == m.current.other()
                && next.current != m.current
            &&& report != StepReport::Placed ==> next.current == m.current
        }),
{
}

/// The marked squares are exactly the recorded moves, and distinct moves
/// mark distinct squares: a game never records more than nine moves, and
/// the board is full exactly when nine moves are on record — which is why
/// the loop may detect the draw by the record's length alone.
pub proof fn lemma_board_full_iff_nine_moves(m: GameModel)
    requires
        model_wf(m),
    ensures
        m.moves.len() <= 9,
        board_full(m.cells) <==> m.moves.len() == 9,
{
    broadcast use vstd::set::group_set_axioms;

    let idxs: Seq<int> = m.moves.map_values(
        |mv: Move| cell_index(mv.row as int, mv.col as int),
    );
    assert forall|i: int, j: int|
        0 <= i < idxs.len() && 0 <= j < idxs.len() && i != j implies idxs[i] != idxs[j] by {
        assert(move_on_grid(m.moves[i]));
        assert(move_on_grid(m.moves[j]));
        assert(m.moves[i] != m.moves[j]);
    }
    idxs.unique_seq_to_set();
    let s = idxs.to_set();
    let grid = set_int_range(0, 9);
    lemma_int_range(0, 9);
    assert forall|k: int| s.contains(k) implies grid.contains(k) by {
        let i = choose|i: int| 0 <= i < idxs.len() && idxs[i] == k;
        assert(move_on_grid(m.moves[i]));
    }
    lemma_len_subset(s, grid);
    assert(m.moves.len() <= 9);

    if board_full(m.cells) {
        // Every square is marked, so every flat index is some move's target.
        assert forall|k: int| grid.contains(k) implies s.contains(k) by {
            let r = k / 3;
            let c = k % 3;
            assert(k == cell_index(r, c));
            assert(coord_in_range(r, c));
            assert(cell_at(m.cells, r, c) is Marked);
            assert(recorded(m.moves, r, c));
            let i = choose|i: int|
                0 <= i < m.moves.len() && (#[trigger] m.moves[i]) == (Move {
                    row: r as usize,
                    col: c as usize,
                });
            assert(idxs[i] == k);
        }
        assert(s =~= grid);
        assert(m.moves.len() == 9);
    }
    if m.moves.len() == 9 {
        lemma_subset_equality(s, grid);
        assert forall|k: int| 0 <= k < 9 implies m.cells[k] is Marked by {
            assert(grid.contains(k));
            assert(s.contains(k));
            let i = choose|i: int| 0 <= i < idxs.len() && idxs[i] == k;
            assert(marked_at(m.cells, m.moves[i]));
            assert(cell_at(m.cells, m.moves[i].row as int, m.moves[i].col as int) == m.cells[k]);
        }
    }
}

/// A successful placement keeps the engine's invariants: the new mark is
/// recorded once, everything already recorded stays marked, and no other
/// square changed.
proof fn lemma_wf_after_place(m: GameModel, row: int, col: int)
    requires
        model_wf(m),
        place_error(m.cells, row, col) is None,
    ensures
        model_wf(
            GameModel {
                cells: m.cells.update(cell_index(row, col), Cell::Marked(m.current)),
                moves: m.moves.push(Move { row: row as usize, col: col as usize }),
                ..m
            },
        ),
{
    let mv = Move { row: row as usize, col: col as usize };
    let cells = m.cells.update(cell_index(row, col), Cell::Marked(m.current));
    let moves = m.moves.push(mv);
    // The placed square was empty, so its coordinate is not yet on record.
    assert forall|i: int| 0 <= i < m.moves.len() implies m.moves[i] != mv by {
        if m.moves[i] == mv {
            assert(marked_at(m.cells, m.moves[i]));
            assert(cell_at(m.cells, row, col) is Marked);
        }
    }
    assert forall|i: int| 0 <= i < moves.len() implies marked_at(cells, #[trigger] moves[i]) by {
        if i < m.moves.len() {
            assert(marked_at(m.cells, m.moves[i]));
            assert(move_on_grid(m.moves[i]));
            if cell_index(moves[i].row as int, moves[i].col as int) != cell_index(row, col) {
                assert(cell_at(cells, moves[i].row as int, moves[i].col as int) == cell_at(
                    m.cells,
                    moves[i].row as int,
                    moves[i].col as int,
                ));
            }
        } else {
            assert(moves[i] == mv);
        }
    }
    assert forall|r: int, c: int|
        coord_in_range(r, c) && (#[trigger] cell_at(cells, r, c)) is Marked implies recorded(
        moves,
        r,
        c,
    ) by {
        if r == row && c == col {
            assert(moves[moves.len() - 1] == (Move { row: r as usize, col: c as usize }));
        } else {
            assert(cell_index(r, c) != cell_index(row, col));
            assert(cell_at(m.cells, r, c) is Marked);
            assert(recorded(m.moves, r, c));
            let i = choose|i: int|
                0 <= i < m.moves.len() && (#[trigger] m.moves[i]) == (Move {
                    row: r as usize,
                    col: c as usize,
                });
            assert(moves[i] == (Move { row: r as usize, col: c as usize }));
        }
    }
}

/// Undoing the most recent placement keeps the engine's invariants: only
/// that square is cleared, and everything still on record stays marked.
proof fn lemma_wf_after_undo(m: GameModel)
    requires
        model_wf(m),
        m.moves.len() > 0,
    ensures
        model_wf(
            GameModel {
                cells: m.cells.update(
                    cell_index(m.moves.last().row as int, m.moves.last().col as int),
                    Cell::Empty,
                ),
                moves: m.moves.drop_last(),
                ..m
            },
        ),
{
    let mv = m.moves.last();
    let cells = m.cells.update(cell_index(mv.row as int, mv.col as int), Cell::Empty);
    let moves = m.moves.drop_last();
    assert(move_on_grid(m.moves[m.moves.len() - 1]));
    assert forall|i: int| 0 <= i < moves.len() implies marked_at(cells, #[trigger] moves[i]) by {
        assert(m.moves[i] != mv);
        assert(move_on_grid(m.moves[i]));
        assert(marked_at(m.cells, m.moves[i]));
        assert(cell_index(moves[i].row as int, moves[i].col as int) != cell_index(
            mv.row as int,
            mv.col as int,
        ));
        assert(cell_at(cells, moves[i].row as int, moves[i].col as int) == cell_at(
            m.cells,
            moves[i].row as int,
            moves[i].col as int,
        ));
    }
    assert forall|r: int, c: int|
        coord_in_range(r, c) && (#[trigger] cell_at(cells, r, c)) is Marked implies recorded(
        moves,
        r,
        c,
    ) by {
        let rc = Move { row: r as usize, col: c as usize };
        assert(cell_at(m.cells, r, c) is Marked);
        assert(recorded(m.moves, r, c));
        let i = choose|i: int| 0 <= i < m.moves.len() && (#[trigger] m.moves[i]) == rc;
        if i == m.moves.len() - 1 {
            assert(rc == mv);
            assert(cell_index(r, c) == cell_index(mv.row as int, mv.col as int));
            assert(cell_at(cells, r, c) is Empty);
        } else {
            assert(moves[i] == rc);
        }
    }
}

} // verus!
