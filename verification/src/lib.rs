//! A verified game-state engine for two-player tic-tac-toe on a 3x3 grid:
//! board placement and win detection, an undoable move history, turn
//! alternation, and a command interpreter for the terminal front end.

mod board;
mod command;
mod entropy;
mod game;
mod history;
mod player;
mod render;

pub use board::{Board, Cell, PlacementError};
pub use board::{board_full, cell_at, cell_index, coord_in_range, line_won, place_error, wins};
pub use board::{lemma_out_of_range_always_fails, lemma_place_succeeds_once};
pub use command::{Command, interpret, parse_move};
pub use command::{
    all_digits, coord_token_ok, coord_val, digits_val, interpret_spec, is_digit_char,
    is_space_char, parse_move_spec, strip_plus, tokens_of,
};
pub use entropy::starting_player_randomizer;
pub use game::{GameModel, GameState, Status, StepReport};
pub use game::{init_model, marked_at, model_wf, move_on_grid, recorded, step_spec};
pub use game::{
    lemma_board_full_iff_nine_moves, lemma_turn_alternation, lemma_undo_inverts_place,
    lemma_undo_on_empty_history,
};
pub use history::{Move, MoveHistory};
pub use player::{Player, switch_player};
pub use render::{cell_chars, render_board, render_chars, row_chars};
