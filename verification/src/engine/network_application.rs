//! The networked application: one game, ticking at a fixed rate, fed by the
//! input that the server collects and publishing the state that the server
//! broadcasts.
//!
//! The application is the only writer of the shared state and the only
//! reader of the input. The caller owns the clock: it sleeps for as long as
//! [`Application::sleep_time`] says and then calls [`Application::tick`].

use crate::engine::game::Game;
use vstd::prelude::*;

verus! {

/// Milliseconds in a second.
pub const MILLIS_PER_SECOND: i32 = 1000;

/// The period, in whole milliseconds, of something that happens `rate` times
/// a second.
pub open spec fn period_of(rate: int) -> int {
    MILLIS_PER_SECOND as int / rate
}

/// What is left of a period after `elapsed` milliseconds: nothing if the
/// period has been overrun.
pub open spec fn remaining(period: int, elapsed: int) -> int {
    if elapsed >= period {
        0
    } else {
        period - elapsed
    }
}

/// The period, in whole milliseconds, of something that happens `rate` times
/// a second.
pub fn period_millis(rate: i32) -> (period: u64)
    requires
        rate > 0,
    ensures
        period == period_of(rate as int),
        period <= 1000,
{
    (MILLIS_PER_SECOND / rate) as u64
}

/// The state that readers see after a run of commits: the last one, or the
/// initial state if there was none.
pub open spec fn snapshot_after<K>(initial: K, commits: Seq<K>) -> K {
    if commits.len() == 0 {
        initial
    } else {
        commits.last()
    }
}

/// Application that runs a game.
///
/// * `T`: the game
/// * `K`: the state shared with the clients
/// * `I`: the input collected from the clients
#[derive(Clone)]
pub struct Application<T: Game<K, I>, K, I> {
    pub is_running: bool,
    pub shared_state: K,
    tick_millis: u64,
    input: I,
    game: T,
}

impl<T: Game<K, I>, K, I> Application<T, K, I> {
    /// Whether the game loop goes on.
    pub closed spec fn running(&self) -> bool {
        self.is_running
    }

    /// The state last committed for the clients.
    pub closed spec fn shared(&self) -> K {
        self.shared_state
    }

    /// The input collected for the next tick.
    pub closed spec fn pending_input(&self) -> I {
        self.input
    }

    /// The game.
    pub closed spec fn game(&self) -> T {
        self.game
    }

    /// The length of a tick in milliseconds.
    pub closed spec fn period(&self) -> int {
        self.tick_millis as int
    }

    /// An application for `game` that starts from the given shared state and
    /// input and ticks `game_update_rate` times a second. It is not running
    /// yet.
    pub fn create(game: T, shared_state: K, input: I, game_update_rate: i32) -> (app: Application<
        T,
        K,
        I,
    >)
        requires
            game_update_rate > 0,
        ensures
            !app.running(),
            app.shared() == shared_state,
            app.pending_input() == input,
            app.game() == game,
            app.period() == period_of(game_update_rate as int),
    {
        Application {
            is_running: false,
            tick_millis: period_millis(game_update_rate),
            input,
            shared_state,
            game,
        }
    }

    /// Starts the application: the game configures its world and the loop is
    /// marked as running.
    pub fn begin(&mut self)
        ensures
            final(self).running(),
            old(self).game().configured(&final(self).game()),
            final(self).shared() == old(self).shared(),
            final(self).pending_input() == old(self).pending_input(),
            final(self).period() == old(self).period(),
    {
        self.is_running = true;
        self.game.world_config();
    }

    /// Whether the game loop goes on.
    pub fn is_running(&self) -> (running: bool)
        ensures
            running == self.running(),
    {
        self.is_running
    }

    /// The length of a tick in milliseconds.
    pub fn tick_period(&self) -> (period: u64)
        ensures
            period == self.period(),
    {
        self.tick_millis
    }

    /// How long to sleep before the next tick when `elapsed_millis` have
    /// passed since the last one: the rest of the period, or nothing at all
    /// if the tick overran.
    pub fn sleep_time(&self, elapsed_millis: u64) -> (millis: u64)
        ensures
            millis == remaining(self.period(), elapsed_millis as int),
    {
        if elapsed_millis >= self.tick_millis {
            0
        } else {
            self.tick_millis - elapsed_millis
        }
    }

    /// Stores the input of a client for the next tick. A later input
    /// replaces an earlier one.
    pub fn accept_input(&mut self, input: I)
        ensures
            final(self).pending_input() == input,
            final(self).shared() == old(self).shared(),
            final(self).game() == old(self).game(),
            final(self).running() == old(self).running(),
            final(self).period() == old(self).period(),
    {
        self.input = input;
    }

    /// The complete state that the last tick committed.
    pub fn snapshot(&self) -> (state: &K)
        ensures
            *state == self.shared(),
    {
        &self.shared_state
    }

    /// The input collected for the next tick.
    pub fn input(&self) -> (input: &I)
        ensures
            *input == self.pending_input(),
    {
        &self.input
    }

    /// Replaces the shared state by `state` as a whole.
    pub fn commit(&mut self, state: K)
        ensures
            final(self).shared() == state,
            final(self).shared() == snapshot_after(old(self).shared(), seq![state]),
            final(self).pending_input() == old(self).pending_input(),
            final(self).game() == old(self).game(),
            final(self).running() == old(self).running(),
            final(self).period() == old(self).period(),
    {
        self.shared_state = state;
    }

    /// One tick: the game is updated on the pending input, the state it
    /// returns replaces the shared state as a whole, the input is reset, and
    /// the loop goes on unless the game has ended.
    pub fn tick(&mut self) where I: Copy
        ensures
            old(self).game().updated(
                old(self).pending_input(),
                &final(self).game(),
                final(self).shared(),
            ),
            final(self).pending_input() == final(self).game().idle_input(),
            final(self).running() == !final(self).game().over(),
            final(self).period() == old(self).period(),
    {
        let input = self.input;
        let state = self.game.update(input);
        self.commit(state);
        self.input = self.game.reset_input();
        self.is_running = !self.game.end_game();
    }
}

/// Creates an application; see [`Application::create`].
pub fn create_app<T: Game<K, I>, K, I>(
    game: T,
    shared_state: K,
    input: I,
    game_update_rate: i32,
) -> (app: Application<T, K, I>)
    requires
        game_update_rate > 0,
    ensures
        !app.running(),
        app.shared() == shared_state,
        app.pending_input() == input,
        app.game() == game,
        app.period() == period_of(game_update_rate as int),
{
    Application::create(game, shared_state, input, game_update_rate)
}

/// Readers never see a mixture: after any run of commits the shared state is
/// the state that one of the commits wrote, namely the last, or the initial
/// state where nothing was committed yet.
pub proof fn lemma_snapshot_is_one_commit<K>(initial: K, commits: Seq<K>)
    ensures
        commits.len() == 0 ==> snapshot_after(initial, commits) == initial,
        commits.len() > 0 ==> snapshot_after(initial, commits) == commits.last()
            && commits.contains(snapshot_after(initial, commits)),
        forall|next: K| #[trigger]
            snapshot_after(snapshot_after(initial, commits), seq![next]) == snapshot_after(
                initial,
                commits.push(next),
            ),
{
    if commits.len() > 0 {
        assert(commits[commits.len() - 1] == commits.last());
    }
}

} // verus!
