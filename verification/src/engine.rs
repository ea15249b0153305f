//! The game engine: the simulation loop of a session and the
//! entity-component store that games build their worlds from.

pub mod ecs;
pub mod entry_point;
pub mod game;
pub mod logger;
pub mod network_application;

use crate::engine::game::Game;
use crate::engine::network_application::{create_app, period_of, Application};
use vstd::prelude::*;

verus! {

/// The rate, in ticks a second, of an application that is started without
/// naming one.
pub const DEFAULT_UPDATE_RATE: i32 = 1;

/// Start a networked app: an application for `game` that ticks once a
/// second, started, with the world of the game set up. The caller runs the
/// loop.
pub fn start_networked<T: Game<K, I>, K, I>(game: T, shared_state: K, input: I) -> (app: Application<
    T,
    K,
    I,
>)
    ensures
        app.running(),
        game.configured(&app.game()),
        app.shared() == shared_state,
        app.pending_input() == input,
        app.period() == period_of(DEFAULT_UPDATE_RATE as int),
{
    let mut app = create_app(game, shared_state, input, DEFAULT_UPDATE_RATE);
    app.begin();
    app
}

/// Starts an application without a network. There is no such application:
/// nothing is started.
pub fn start() {
}

} // verus!
