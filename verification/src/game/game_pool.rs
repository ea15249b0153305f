//! The pool of games that a client is matched against.

use crate::game::game_wrapper::GameWrapper;
use vstd::prelude::*;

verus! {

/// The port of the first game of a pool.
pub const FIRST_PORT: i32 = 7000;

/// The port of the first open game at or after place `from`, if there is
/// one.
pub open spec fn first_open_from(games: Seq<GameWrapper>, from: int) -> Option<i32>
    decreases games.len() - from,
{
    if from < 0 || from >= games.len() {
        None
    } else if games[from].open() {
        Some(games[from].listening_port())
    } else {
        first_open_from(games, from + 1)
    }
}

/// A fixed row of games.
#[derive(Debug)]
pub struct GamePool {
    pub game_wrappers: Vec<GameWrapper>,
}

impl GamePool {
    /// A pool of `max_games` games without players, game `i` on port
    /// `FIRST_PORT + i`, each for `max_players` players.
    pub fn new(max_games: i32, max_players: i32) -> (pool: GamePool)
        requires
            FIRST_PORT + max_games <= i32::MAX,
        ensures
            pool.game_wrappers@.len() == (if max_games > 0 {
                max_games as int
            } else {
                0
            }),
            forall|i: int|
                0 <= i < pool.game_wrappers@.len() ==> {
                    &&& (#[trigger] pool.game_wrappers@[i]).listening_port() == FIRST_PORT + i
                    &&& pool.game_wrappers@[i].index() == i
                    &&& pool.game_wrappers@[i].capacity() == max_players
                    &&& pool.game_wrappers@[i].count() == 0
                    &&& !pool.game_wrappers@[i].started()
                },
    {
        let mut game_wrappers: Vec<GameWrapper> = Vec::new();
        let mut i: i32 = 0;
        while i < max_games
            invariant
                0 <= i,
                i <= max_games || i == 0,
                FIRST_PORT + max_games <= i32::MAX,
                game_wrappers@.len() == i,
                forall|k: int|
                    0 <= k < i ==> {
                        &&& (#[trigger] game_wrappers@[k]).listening_port() == FIRST_PORT + k
                        &&& game_wrappers@[k].index() == k
                        &&& game_wrappers@[k].capacity() == max_players
                        &&& game_wrappers@[k].count() == 0
                        &&& !game_wrappers@[k].started()
                    },
            decreases max_games - i,
        {
            let port = FIRST_PORT + i;
            game_wrappers.push(GameWrapper::new(i as usize, port, max_players));
            i += 1;
        }
        GamePool { game_wrappers }
    }

    /// The port of the first game that has room, if any has.
    pub fn find_empty_game(&self) -> (port: Option<i32>)
        ensures
            port == first_open_from(self.game_wrappers@, 0),
    {
        let mut i: usize = 0;
        while i < self.game_wrappers.len()
            invariant
                i <= self.game_wrappers@.len(),
                first_open_from(self.game_wrappers@, 0) == first_open_from(
                    self.game_wrappers@,
                    i as int,
                ),
            decreases self.game_wrappers@.len() - i,
        {
            let game_wrapper = &self.game_wrappers[i];
            if game_wrapper.is_empty() {
                return Some(game_wrapper.port());
            }
            i += 1;
        }
        None
    }
}

} // verus!
