use vstd::prelude::*;

use crate::player::Player;

verus! {

/// The lifecycle state of a game.
///
/// `Playing` is the only state in which moves are accepted. `Won` records
/// the mover who completed a line of four. `Closed` covers both an
/// administrative shutdown and a completed draw.
#[derive(Clone, Copy, Debug, PartialEq, Eq, Structural)]
pub enum GameStatus {
    Closed,
    Playing,
    Won { player: Player },
}

} // verus!
