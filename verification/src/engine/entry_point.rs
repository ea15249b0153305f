//! Running a game from start to end.

use crate::engine::game::Game;
use crate::engine::network_application::{period_of, Application};
use vstd::prelude::*;

verus! {

/// Whether one tick may lead from the game `before`, with the pending input
/// `input`, to the game `after` and the shared state `shared`. The state
/// that was shared before the tick does not matter to it: a tick replaces
/// that state as a whole.
pub open spec fn updates<T: Game<K, I>, K, I>(
    before: T,
    input: I,
    after: T,
    shared: K,
    replaced: K,
) -> bool {
    before.updated(input, &after, shared)
}

/// Whether `ticks` ticks may lead from the game `game` with the pending
/// input `input` and the shared state `shared` to the game `end` with the
/// pending input `end_input` and the shared state `end_shared`. Each tick
/// updates the game on the pending input, shares the state that the update
/// returns and resets the input; no tick follows one that ended the game.
pub open spec fn ticked<T: Game<K, I>, K, I>(
    game: T,
    shared: K,
    input: I,
    ticks: nat,
    end: T,
    end_shared: K,
    end_input: I,
) -> bool
    decreases ticks,
{
    if ticks == 0 {
        end == game && end_shared == shared && end_input == input
    } else {
        exists|before: T, before_shared: K, before_input: I|
            {
                &&& ticked(
                    game,
                    shared,
                    input,
                    (ticks - 1) as nat,
                    before,
                    before_shared,
                    before_input,
                )
                &&& ticks > 1 ==> !before.over()
                &&& #[trigger] updates(before, before_input, end, end_shared, before_shared)
                &&& end_input == end.idle_input()
            }
    }
}

/// Runs `game` without waiting between ticks: the world is set up, and the
/// game is ticked until it ends or `max_ticks` ticks are done. Returns the
/// application as the last tick left it, and the number of ticks done.
pub fn run<T: Game<K, I>, K, I: Copy>(
    game: T,
    shared_state: K,
    input: I,
    game_update_rate: i32,
    max_ticks: u64,
) -> (outcome: (Application<T, K, I>, u64))
    requires
        game_update_rate > 0,
    ensures
        outcome.0.period() == period_of(game_update_rate as int),
        outcome.1 <= max_ticks,
        outcome.1 < max_ticks ==> outcome.1 > 0 && outcome.0.game().over(),
        outcome.0.running() == (outcome.1 == 0 || !outcome.0.game().over()),
        exists|configured: T|
            {
                &&& #[trigger] game.configured(&configured)
                &&& ticked(
                    configured,
                    shared_state,
                    input,
                    outcome.1 as nat,
                    outcome.0.game(),
                    outcome.0.shared(),
                    outcome.0.pending_input(),
                )
            },
{
    let mut app = Application::create(game, shared_state, input, game_update_rate);
    app.begin();
    let ghost configured = app.game();
    let mut ticks: u64 = 0;
    while ticks < max_ticks && app.is_running()
        invariant
            app.period() == period_of(game_update_rate as int),
            ticks <= max_ticks,
            app.running() == (ticks == 0 || !app.game().over()),
            game.configured(&configured),
            ticked(
                configured,
                shared_state,
                input,
                ticks as nat,
                app.game(),
                app.shared(),
                app.pending_input(),
            ),
        decreases max_ticks - ticks,
    {
        let ghost before = app.game();
        let ghost before_shared = app.shared();
        let ghost before_input = app.pending_input();
        app.tick();
        ticks += 1;
        assert(updates(before, before_input, app.game(), app.shared(), before_shared));
    }
    (app, ticks)
}

} // verus!
