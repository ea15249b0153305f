//! The player: what a controller handles as one client connection.

use vstd::prelude::*;

verus! {

/// A participant of a session, identified by a number that is unique within
/// the session.
#[derive(Debug, Clone, Copy, PartialEq, Eq, Structural)]
pub struct Player {
    pub id: usize,
}

impl Player {
    /// The player with the given identifier.
    pub fn new(id: usize) -> (player: Player)
        ensures
            player.id == id,
    {
        Player { id }
    }
}

} // verus!
