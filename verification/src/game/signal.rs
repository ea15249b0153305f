//! What a client can ask of a game.

use crate::game::position::Position;
use vstd::prelude::*;

verus! {

/// A message from a client.
#[derive(Debug, Clone, Copy, PartialEq, Eq, Structural)]
pub enum Signal {
    /// Move the sender by the given step.
    MovePlayer(Position),
    StartConnection,
    EndConnection,
}

impl Signal {
    /// The move that goes nowhere.
    pub fn default_move() -> (signal: Signal)
        ensures
            signal == Signal::MovePlayer(Position { x: 0, y: 0 }),
    {
        Signal::MovePlayer(Position::new())
    }
}

} // verus!
