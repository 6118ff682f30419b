use vstd::prelude::*;

use crate::board::Board;
use crate::player::Player;

verus! {

/// A source of moves for automated play.
///
/// Given read access to the grid and the mover to play as, an
/// implementation picks the column to drop a piece into. The game
/// validates the choice like any other move, so an implementation is free
/// to return any column; a bad choice is simply rejected.
pub trait BotPlayer {
    fn choose_column(&mut self, board: &Board<Player>, player: Player) -> i32
        requires
            board.wf(),
    ;
}

} // verus!
