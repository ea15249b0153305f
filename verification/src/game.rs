//! A first, self-contained game server: players connect to a game, every
//! message moves its sender one step, and the game answers with the
//! positions of all players.

pub mod game_pool;
pub mod game_wrapper;
pub mod player;
pub mod server;
pub mod position;
pub mod session;
pub mod signal;
