//! The two sides of the game.

use vstd::prelude::*;

verus! {

/// One of the two players. Light always moves first.
#[derive(Debug, Clone, Copy, PartialEq, Eq, Structural)]
pub enum Player {
    Light,
    Dark,
}

impl Player {
    /// The other side, as a mathematical function.
    pub open spec fn other(self) -> Player {
        match self {
            Player::Light => Player::Dark,
            Player::Dark => Player::Light,
        }
    }

    /// The other side.
    pub fn opponent(self) -> (r: Player)
        ensures
            r == self.other(),
    {
        match self {
            Player::Light => Player::Dark,
            Player::Dark => Player::Light,
        }
    }
}

} // verus!
