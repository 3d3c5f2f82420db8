//! The two player symbols and turn switching.

use vstd::prelude::*;

verus! {

/// One of the two players. The game never holds a third symbol.
#[derive(Clone, Copy, Debug, PartialEq, Eq, Structural)]
pub enum Player {
    X,
    O,
}

impl Player {
    /// The other player, as a spec-level value.
    pub open spec fn other(self) -> Player {
        match self {
            Player::X => Player::O,
            Player::O => Player::X,
        }
    }

    /// The character conventionally used to render this player's mark.
    pub fn symbol(self) -> (c: char)
        ensures
            c == (match self {
                Player::X => 'X',
                Player::O => 'O',
            }),
    {
        match self {
            Player::X => 'X',
            Player::O => 'O',
        }
    }
}

/// Toggles whose turn it is: each player's successor is the other player.
pub fn switch_player(current_player: Player) -> (next: Player)
    ensures
        next == current_player.other(),
        next != current_player,
{
    match current_player {
        Player::X => Player::O,
        Player::O => Player::X,
    }
}

} // verus!
