//! The connector: the slot through which a session tells the pool how full
//! it is.

use vstd::prelude::*;

verus! {

/// The slot of one session: the port it listens on, the number of players
/// it takes, the number it has, and whether it has been started.
#[derive(Debug, Clone, Copy)]
pub struct Connector {
    pub port: i32,
    max_players: i32,
    player_count: usize,
    started: bool,
}

impl Connector {
    /// The port the session listens on.
    pub closed spec fn listening_port(&self) -> i32 {
        self.port
    }

    /// The number of players the session takes.
    pub closed spec fn capacity(&self) -> int {
        self.max_players as int
    }

    /// The number of players the session has.
    pub closed spec fn count(&self) -> nat {
        self.player_count as nat
    }

    /// Whether the session has been started.
    pub closed spec fn started(&self) -> bool {
        self.started
    }

    /// The session never holds more players than it takes.
    pub open spec fn wf(&self) -> bool {
        self.count() == 0 || self.count() <= self.capacity()
    }

    /// Whether the session has room for one more player.
    pub open spec fn open(&self) -> bool {
        self.count() < self.capacity()
    }

    /// The connector of an empty session on `port` that takes `max_players`
    /// players. A limit below one leaves the session closed for good.
    pub fn new(port: i32, max_players: i32) -> (connector: Connector)
        ensures
            connector.listening_port() == port,
            connector.capacity() == max_players,
            connector.count() == 0,
            !connector.started(),
            connector.wf(),
    {
        Connector { port, max_players, player_count: 0, started: false }
    }

    /// Marks the session as started: its listener is bound and its game
    /// runs.
    pub fn start(&mut self)
        ensures
            final(self).started(),
            final(self).count() == old(self).count(),
            final(self).capacity() == old(self).capacity(),
            final(self).listening_port() == old(self).listening_port(),
    {
        self.started = true;
    }

    /// Whether the session has been started.
    pub fn is_started(&self) -> (started: bool)
        ensures
            started == self.started(),
    {
        self.started
    }

    /// The port the session listens on.
    pub fn port(&self) -> (port: i32)
        ensures
            port == self.listening_port(),
    {
        self.port
    }

    /// The limit the connector was made with.
    pub fn max_players(&self) -> (limit: i32)
        ensures
            limit == self.capacity(),
    {
        self.max_players
    }

    /// The number of players counted so far.
    pub fn player_count(&self) -> (count: usize)
        ensures
            count == self.count(),
    {
        self.player_count
    }

    /// Whether the session is not full, so that a new player can be added.
    pub fn is_empty(&self) -> (open: bool)
        ensures
            open == self.open(),
    {
        self.max_players >= 0 && self.player_count < self.max_players as usize
    }

    /// Counts one more player. The session must have room.
    pub fn add_player(&mut self)
        requires
            old(self).open(),
        ensures
            final(self).count() == old(self).count() + 1,
            final(self).capacity() == old(self).capacity(),
            final(self).listening_port() == old(self).listening_port(),
            final(self).started() == old(self).started(),
            final(self).wf(),
    {
        self.player_count += 1;
    }

    /// Counts one player less. The session must hold one.
    pub fn remove_player(&mut self)
        requires
            old(self).count() > 0,
        ensures
            final(self).count() == old(self).count() - 1,
            final(self).capacity() == old(self).capacity(),
            final(self).listening_port() == old(self).listening_port(),
            final(self).started() == old(self).started(),
            old(self).wf() ==> final(self).wf(),
    {
        self.player_count -= 1;
    }
}

} // verus!
