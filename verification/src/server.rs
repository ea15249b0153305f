//! The session server.
//!
//! A pool owns a fixed number of game sessions, one per port. A public
//! listener answers every client with the port of a session that has room;
//! the client then connects to that session, whose controller admits it while
//! the session is under capacity and runs a receive and a send loop for it.

pub mod connection;
pub mod connection_wrapper;
pub mod connector;
pub mod controller;
pub mod framing;
pub mod game_connection;
pub mod game_pool;
pub mod matchmaking;
pub mod player;
pub mod pool;

use crate::server::connector::Connector;
use crate::server::matchmaking::{port_line, port_line_of, NO_PORT};
use crate::server::pool::{first_open, Pool, BASE_PORT};
use vstd::prelude::*;

verus! {

/// The port that the first open session of `slots` listens on, or the port
/// that stands for "none" where every session is full.
pub open spec fn port_offered(slots: Seq<Connector>) -> i32 {
    match first_open(slots) {
        Some(port) => port,
        None => NO_PORT,
    }
}

/// The server: the pool of sessions behind the public port.
#[derive(Debug)]
pub struct Server {
    game_pool: Pool,
}

impl Server {
    /// The slots of the sessions, in the order of the pool.
    pub closed spec fn slots(&self) -> Seq<Connector> {
        self.game_pool@
    }

    /// A server with `max_games` empty sessions of `max_players` players
    /// each.
    pub fn new(max_games: i32, max_players: i32) -> (server: Server)
        requires
            BASE_PORT + max_games <= i32::MAX,
        ensures
            server.slots().len() == (if max_games > 0 {
                max_games as int
            } else {
                0
            }),
            forall|i: int|
                0 <= i < server.slots().len() ==> {
                    &&& (#[trigger] server.slots()[i]).listening_port() == BASE_PORT + i
                    &&& server.slots()[i].capacity() == max_players
                    &&& server.slots()[i].count() == 0
                    &&& server.slots()[i].wf()
                },
    {
        Server { game_pool: Pool::new(max_games, max_players) }
    }

    /// A server with `max_games` empty sessions of `max_players` players
    /// each, on consecutive ports from `base_port` on.
    pub fn with_base_port(base_port: i32, max_games: i32, max_players: i32) -> (server: Server)
        requires
            max_games > 0 ==> base_port + max_games <= i32::MAX,
        ensures
            server.slots().len() == (if max_games > 0 {
                max_games as int
            } else {
                0
            }),
            forall|i: int|
                0 <= i < server.slots().len() ==> {
                    &&& (#[trigger] server.slots()[i]).listening_port() == base_port + i
                    &&& server.slots()[i].capacity() == max_players
                    &&& server.slots()[i].count() == 0
                    &&& server.slots()[i].wf()
                },
    {
        Server { game_pool: Pool::with_base_port(base_port, max_games, max_players) }
    }

    /// The pool of sessions.
    pub fn game_pool(&self) -> (pool: &Pool)
        ensures
            pool@ == self.slots(),
    {
        &self.game_pool
    }

    /// Records what session `index` reports of itself.
    pub fn report(&mut self, index: usize, connector: Connector)
        requires
            index < old(self).slots().len(),
        ensures
            final(self).slots() == old(self).slots().update(index as int, connector),
    {
        self.game_pool.report(index, connector);
    }

    /// The line that answers a client on the public port: the port of the
    /// first session with room, or `0` where every session is full. What the
    /// client sent does not matter, and nothing is reserved for it.
    pub fn handle_client_connection(&self) -> (line: Vec<u8>)
        ensures
            line@ == port_line_of(port_offered(self.slots())),
    {
        match self.game_pool.find_empty_game() {
            Some(game_wrapper_port) => port_line(game_wrapper_port),
            None => port_line(NO_PORT),
        }
    }
}

} // verus!
