use vstd::prelude::*;

use crate::board::Board;
use crate::game_status::GameStatus;
use crate::player::Player;

verus! {

/// The operations a Connect Four game offers its surrounding layers.
///
/// Every mutation goes through `emplace`; a move that is rejected leaves
/// the game unchanged. Implementations state their exact behaviour in the
/// `ensures` clauses of their own `impl`.
pub trait ConnectFour {
    /// The well-formedness condition under which the operations below are
    /// meaningful; constructors establish it and every operation keeps it.
    spec fn inv(&self) -> bool;

    /// Read-only view of the grid, for rendering and for move sources.
    fn board(&self) -> &Board<Player>
        requires
            self.inv(),
    ;

    /// The current lifecycle state.
    fn state(&self) -> GameStatus
        requires
            self.inv(),
    ;

    /// The mover whose turn it is.
    fn turn(&self) -> &Player
        requires
            self.inv(),
    ;

    /// Abandons a game in progress; never overrides a decided win.
    fn close(&mut self)
        requires
            old(self).inv(),
        ensures
            final (self).inv(),
    ;

    /// Drops the current mover's piece into `column`, reporting whether
    /// the move was accepted.
    fn emplace(&mut self, column: i32) -> (accepted: bool)
        requires
            old(self).inv(),
        ensures
            final (self).inv(),
    ;

    /// The winning mover, if the game has been won.
    fn get_winner(&self) -> Option<Player>
        requires
            self.inv(),
    ;
}

} // verus!
