//! The players of a game.

use crate::game::position::{fits, Position};
use vstd::prelude::*;

verus! {

/// A player: its identifier and where it stands.
#[derive(Debug, Clone, Copy, PartialEq, Eq, Structural)]
pub struct Player {
    pub id: usize,
    pub pos: Position,
}

impl Player {
    /// A new player, at the origin.
    pub fn new(id: usize) -> (player: Player)
        ensures
            player == (Player { id, pos: Position { x: 0, y: 0 } }),
    {
        Player { id, pos: Position::new() }
    }

    /// Moves the player one step to the right and one up.
    pub fn move_player(&mut self)
        requires
            fits(old(self).pos.x, 1),
            fits(old(self).pos.y, 1),
        ensures
            final(self).id == old(self).id,
            final(self).pos.x == old(self).pos.x + 1,
            final(self).pos.y == old(self).pos.y + 1,
    {
        self.pos.displace_unit();
    }

    /// Moves the player by `x` to the right and `y` up.
    pub fn move_by(&mut self, x: i32, y: i32)
        requires
            fits(old(self).pos.x, x),
            fits(old(self).pos.y, y),
        ensures
            final(self).id == old(self).id,
            final(self).pos.x == old(self).pos.x + x,
            final(self).pos.y == old(self).pos.y + y,
    {
        self.pos.displace(x, y);
    }
}

} // verus!
