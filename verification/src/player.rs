use vstd::prelude::*;

verus! {

/// One of the two movers. `Red` is the designated first mover of a fresh game.
#[derive(Clone, Copy, Debug, PartialEq, Eq, Structural)]
pub enum Player {
    Red,
    Blue,
}

impl Player {
    /// The other mover.
    pub open spec fn spec_toggle(self) -> Player {
        match self {
            Player::Red => Player::Blue,
            Player::Blue => Player::Red,
        }
    }

    /// Swaps the two movers.
    pub fn toggle(self) -> (r: Player)
        ensures
            r == self.spec_toggle(),
    {
        match self {
            Player::Red => Player::Blue,
            Player::Blue => Player::Red,
        }
    }
}

impl Default for Player {
    /// A fresh game starts with `Red` to move.
    fn default() -> (r: Player)
        ensures
            r == Player::Red,
    {
        Player::Red
    }
}

/// Toggling is an involution: toggling twice returns the original mover.
pub proof fn lemma_toggle_involution(p: Player)
    ensures
        p.spec_toggle().spec_toggle() == p,
{
}

} // verus!
