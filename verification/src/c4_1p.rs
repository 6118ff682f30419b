use vstd::prelude::*;

use crate::board::Board;
use crate::bot_player::BotPlayer;
use crate::c4::ConnectFour;
use crate::c4_2p::ConnectFour2p;
use crate::game_status::GameStatus;
use crate::player::Player;

verus! {

/// A one-player game: a plain two-player game plus an injected move
/// source. Each accepted human move is followed, while the game is still
/// in progress, by one move of the move source; a move source that picks
/// an invalid column ends the game.
pub struct ConnectFour1p<B: BotPlayer> {
    pub game: ConnectFour2p,
    pub bot: B,
}

impl<B: BotPlayer> ConnectFour1p<B> {
    /// A fresh one-player game on an empty `width` by `height` grid, in
    /// progress, with the human mover `Red` to move first.
    pub fn new(width: i32, height: i32, bot_player: B) -> (r: Self)
        requires
            0 < width,
            0 < height,
            width * height <= i32::MAX,
        ensures
            r.game.wf(),
            r.game.state == GameStatus::Playing,
            r.game.turn == Player::Red,
            r.game.board.width == width,
            r.game.board.height == height,
            forall|rr: int, cc: int| #[trigger] r.game.board@.cell(rr, cc) is None,
            r.bot == bot_player,
    {
        Self { game: ConnectFour2p::new(width, height), bot: bot_player }
    }
}

impl<B: BotPlayer> ConnectFour for ConnectFour1p<B> {
    open spec fn inv(&self) -> bool {
        self.game.wf()
    }

    fn board(&self) -> (r: &Board<Player>)
        ensures
            r == &self.game.board,
    {
        self.game.board()
    }

    fn state(&self) -> (r: GameStatus)
        ensures
            r == self.game.state,
    {
        self.game.state()
    }

    fn turn(&self) -> (r: &Player)
        ensures
            *r == self.game.turn,
    {
        self.game.turn()
    }

    fn close(&mut self)
        ensures
            final (self).game.wf(),
            final (self).game@ == old(self).game@.spec_close(),
            final (self).game.board == old(self).game.board,
            final (self).bot == old(self).bot,
    {
        self.game.close()
    }

    /// Plays the human move, then — if the game is still in progress —
    /// asks the move source for a column and plays that too. The result
    /// reports whether the *human* move was accepted; what the move
    /// source chose is outside this game's control, so the final state is
    /// only pinned down to: some column was chosen, and it was either
    /// played like any other move or, if invalid, the game was closed.
    fn emplace(&mut self, column: i32) -> (r: bool)
        ensures
            final (self).game.wf(),
            r == old(self).game@.can_move(column as int),
            !r ==> *final (self) == *old(self),
            r ==> ({
                let mid = old(self).game@.spec_emplace(column as int);
                if mid.status == GameStatus::Playing {
                    exists|choice: int|
                        final (self).game@ == (if mid.can_move(choice) {
                            mid.spec_emplace(choice)
                        } else {
                            mid.spec_close()
                        })
                } else {
                    final (self).game@ == mid
                }
            }),
    {
        if !self.game.emplace(column) {
            return false;
        }
        if self.game.state() == GameStatus::Playing {
            let decision = self.bot.choose_column(self.game.board(), *self.game.turn());
            if !self.game.emplace(decision) {
                self.game.close();
            }
        }
        true
    }

    fn get_winner(&self) -> (r: Option<Player>)
        ensures
            r == self.game@.spec_winner(),
    {
        self.game.get_winner()
    }
}

} // verus!
