use vstd::prelude::*;

use rand::seq::SliceRandom;

use crate::board::Board;
use crate::bot_player::BotPlayer;
use crate::player::Player;

verus! {

/// A move source that drops its piece into a column picked at random
/// among those that still have space free.
pub struct RandomPlayer;

/// Relies on rand's `SliceRandom::choose` with the thread-local
/// generator: it returns some element of the slice, and returns `None`
/// exactly when the slice is empty.
#[verifier::external_body]
fn choose_from(options: &Vec<i32>) -> (r: Option<i32>)
    ensures
        match r {
            Some(v) => exists|i: int| 0 <= i < options@.len() && options@[i] == v,
            None => options@.len() == 0,
        },
{
    options.choose(&mut rand::thread_rng()).copied()
}

impl BotPlayer for RandomPlayer {
    /// Picks a column whose top cell is still empty, whenever any such
    /// column exists; a board with no space left yields column `0`.
    fn choose_column(&mut self, board: &Board<Player>, player: Player) -> (r: i32)
        ensures
            (exists|c: int| 0 <= c < board.width && board@.cell(0, c) is None) ==> (0 <= r
                < board.width && board@.cell(0, r as int) is None),
            !(exists|c: int| 0 <= c < board.width && board@.cell(0, c) is None) ==> r == 0,
    {
        let mut options: Vec<i32> = Vec::new();
        let width = board.width();
        let mut column: i32 = 0;
        while column < width
            invariant
                board.wf(),
                width == board.width,
                0 <= column <= width,
                forall|i: int|
                    0 <= i < options@.len() ==> (0 <= #[trigger] options@[i] < width
                        && board@.cell(0, options@[i] as int) is None),
                (exists|c: int| 0 <= c < column && board@.cell(0, c) is None) <==> options@.len()
                    > 0,
            decreases width - column,
        {
            if board.get(0, column).is_none() {
                options.push(column);
            }
            column = column + 1;
        }
        match choose_from(&options) {
            Some(c) => c,
            None => 0,
        }
    }
}

} // verus!
