//! Choosing the starting player: a single one-bit uniform draw, made once
//! at startup.

use vstd::prelude::*;

use rand::RngExt;

use crate::player::Player;

verus! {

/// Relies on rand's `RngExt::random_range` on the thread-local generator:
/// the sample lies in the given (non-empty) range, here `0..=1`. Nothing
/// more is assumed of a random draw.
#[verifier::external_body]
fn coin_flip() -> (bit: u8)
    ensures
        bit == 0 || bit == 1,
{
    rand::rng().random_range(0..=1)
}

/// Draws the player who moves first, by a 50/50 coin flip. Whatever the
/// coin shows, the result is one of the two players, and the rest of the
/// game is verified for either outcome.
pub fn starting_player_randomizer() -> (p: Player)
    ensures
        p == Player::X || p == Player::O,
{
    if coin_flip() == 0 {
        Player::X
    } else {
        Player::O
    }
}

} // verus!
