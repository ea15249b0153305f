//! The wrapper of a game: what the pool knows of it.

use vstd::prelude::*;

verus! {

/// The fill state of one game.
#[derive(Debug, Clone, Copy)]
pub struct GameWrapper {
    player_count: usize,
    max_players: i32,
    game_started: bool,
    id: usize,
    pub port: i32,
}

impl GameWrapper {
    /// The port the game listens on.
    pub closed spec fn listening_port(&self) -> i32 {
        self.port
    }

    /// The place of the game in its pool.
    pub closed spec fn index(&self) -> usize {
        self.id
    }

    /// The number of players the game takes.
    pub closed spec fn capacity(&self) -> int {
        self.max_players as int
    }

    /// The number of players the game has.
    pub closed spec fn count(&self) -> nat {
        self.player_count as nat
    }

    /// Whether the game has started; a started game takes no new players.
    pub closed spec fn started(&self) -> bool {
        self.game_started
    }

    /// Whether one more player may join.
    pub open spec fn open(&self) -> bool {
        self.count() < self.capacity() && !self.started()
    }

    /// The wrapper of game `id` of a pool, which listens on `port`, takes
    /// `max_players` players, has none and has not started.
    pub fn new(id: usize, port: i32, max_players: i32) -> (wrapper: GameWrapper)
        ensures
            wrapper.index() == id,
            wrapper.listening_port() == port,
            wrapper.capacity() == max_players,
            wrapper.count() == 0,
            !wrapper.started(),
    {
        GameWrapper { player_count: 0, game_started: false, id, port, max_players }
    }

    /// The place of the game in its pool.
    pub fn id(&self) -> (id: usize)
        ensures
            id == self.index(),
    {
        self.id
    }

    /// The number of players the game takes.
    pub fn max_players(&self) -> (limit: i32)
        ensures
            limit == self.capacity(),
    {
        self.max_players
    }

    /// Whether the game has started.
    pub fn is_started(&self) -> (started: bool)
        ensures
            started == self.started(),
    {
        self.game_started
    }

    /// The port the game listens on.
    pub fn port(&self) -> (port: i32)
        ensures
            port == self.listening_port(),
    {
        self.port
    }

    /// The number of players counted so far.
    pub fn player_count(&self) -> (count: usize)
        ensures
            count == self.count(),
    {
        self.player_count
    }

    /// Whether one more player may join.
    pub fn is_empty(&self) -> (open: bool)
        ensures
            open == self.open(),
    {
        self.max_players >= 0 && self.player_count < self.max_players as usize
            && !self.game_started
    }

    /// Counts one more player. There must be room in the machine's count
    /// for one.
    pub fn add_player(&mut self)
        requires
            old(self).count() < usize::MAX,
        ensures
            final(self).count() == old(self).count() + 1,
            final(self).capacity() == old(self).capacity(),
            final(self).listening_port() == old(self).listening_port(),
            final(self).index() == old(self).index(),
            final(self).started() == old(self).started(),
    {
        self.player_count += 1;
    }

    /// Counts one player less. The game must hold one.
    pub fn remove_player(&mut self)
        requires
            old(self).count() > 0,
        ensures
            final(self).count() == old(self).count() - 1,
            final(self).capacity() == old(self).capacity(),
            final(self).listening_port() == old(self).listening_port(),
            final(self).index() == old(self).index(),
            final(self).started() == old(self).started(),
    {
        self.player_count -= 1;
    }
}

} // verus!
