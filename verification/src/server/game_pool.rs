//! The game pool: a row of game connections, matched against in order.

use crate::server::connection_wrapper::ConnectionWrapper;
use crate::server::pool::BASE_PORT;
use vstd::prelude::*;

verus! {

/// The port of the first open game at or after place `from`, if there is
/// one.
pub open spec fn first_open_from(games: Seq<ConnectionWrapper>, from: int) -> Option<i32>
    decreases games.len() - from,
{
    if from < 0 || from >= games.len() {
        None
    } else if games[from].open() {
        Some(games[from].listening_port())
    } else {
        first_open_from(games, from + 1)
    }
}

/// A fixed row of game connections.
#[derive(Debug)]
pub struct GamePool {
    pub game_connections: Vec<ConnectionWrapper>,
}

impl GamePool {
    /// A pool of `max_games` games without players, game `i` on port
    /// `BASE_PORT + i`, each for `max_players` players.
    pub fn new(max_games: i32, max_players: i32) -> (pool: GamePool)
        requires
            BASE_PORT + max_games <= i32::MAX,
        ensures
            pool.game_connections@.len() == (if max_games > 0 {
                max_games as int
            } else {
                0
            }),
            forall|i: int|
                0 <= i < pool.game_connections@.len() ==> {
                    &&& (#[trigger] pool.game_connections@[i]).listening_port() == BASE_PORT + i
                    &&& pool.game_connections@[i].index() == i
                    &&& pool.game_connections@[i].capacity() == max_players
                    &&& pool.game_connections@[i].count() == 0
                    &&& !pool.game_connections@[i].started()
                },
    {
        let mut game_connections: Vec<ConnectionWrapper> = Vec::new();
        let mut i: i32 = 0;
        while i < max_games
            invariant
                0 <= i,
                i <= max_games || i == 0,
                BASE_PORT + max_games <= i32::MAX,
                game_connections@.len() == i,
                forall|k: int|
                    0 <= k < i ==> {
                        &&& (#[trigger] game_connections@[k]).listening_port() == BASE_PORT + k
                        &&& game_connections@[k].index() == k
                        &&& game_connections@[k].capacity() == max_players
                        &&& game_connections@[k].count() == 0
                        &&& !game_connections@[k].started()
                    },
            decreases max_games - i,
        {
            let port = BASE_PORT + i;
            game_connections.push(ConnectionWrapper::new(i as usize, port, max_players));
            i += 1;
        }
        GamePool { game_connections }
    }

    /// The port of the first game that has room and has not started, if
    /// there is one.
    pub fn find_empty_game(&self) -> (port: Option<i32>)
        ensures
            port == first_open_from(self.game_connections@, 0),
    {
        let mut i: usize = 0;
        while i < self.game_connections.len()
            invariant
                i <= self.game_connections@.len(),
                first_open_from(self.game_connections@, 0) == first_open_from(
                    self.game_connections@,
                    i as int,
                ),
            decreases self.game_connections@.len() - i,
        {
            let game_connection = &self.game_connections[i];
            if game_connection.is_empty() {
                return Some(game_connection.port());
            }
            i += 1;
        }
        None
    }
}

} // verus!
