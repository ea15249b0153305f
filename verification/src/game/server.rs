//! The public listener of the first game server: it tells every client the
//! port of a game with room.

use crate::game::game_pool::{first_open_from, GamePool, FIRST_PORT};
use crate::server::matchmaking::{port_line, port_line_of, NO_PORT};
use vstd::prelude::*;

verus! {

/// The server: a pool of games behind one public port.
#[derive(Debug)]
pub struct Server {
    game_pool: GamePool,
}

impl Server {
    /// The games of the server.
    pub closed spec fn pool(&self) -> GamePool {
        self.game_pool
    }

    /// A server with `max_games` games of `max_players` players each.
    pub fn new(max_games: i32, max_players: i32) -> (server: Server)
        requires
            FIRST_PORT + max_games <= i32::MAX,
        ensures
            server.pool().game_wrappers@.len() == (if max_games > 0 {
                max_games as int
            } else {
                0
            }),
            forall|i: int|
                0 <= i < server.pool().game_wrappers@.len() ==> (
                #[trigger] server.pool().game_wrappers@[i]).open() == (max_players > 0),
    {
        Server { game_pool: GamePool::new(max_games, max_players) }
    }

    /// The games of the server.
    pub fn game_pool(&self) -> (pool: &GamePool)
        ensures
            *pool == self.pool(),
    {
        &self.game_pool
    }

    /// The games of the server, to record players that come and go.
    pub fn game_pool_mut(&mut self) -> (pool: &mut GamePool)
        ensures
            *pool == old(self).pool(),
            final(self).pool() == *final(pool),
    {
        &mut self.game_pool
    }

    /// The line that answers a client: the port of the first game with
    /// room, or `0` where every game is full.
    pub fn handle_client_connection(&self) -> (line: Vec<u8>)
        ensures
            line@ == port_line_of(
                match first_open_from(self.pool().game_wrappers@, 0) {
                    Some(port) => port,
                    None => NO_PORT,
                },
            ),
    {
        match self.game_pool.find_empty_game() {
            Some(game_wrapper_port) => port_line(game_wrapper_port),
            None => port_line(NO_PORT),
        }
    }
}

} // verus!
