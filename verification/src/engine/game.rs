//! The interface between the engine and a game.

use vstd::prelude::*;

verus! {

/// A game that the engine can run: `K` is the state it shares with its
/// clients, `I` the input it takes each tick.
///
/// The spec functions say what an implementation does; the engine's own
/// contracts are stated through them.
pub trait Game<K, I>: Sized {
    /// Whether `after` is the game that `world_config` may leave behind.
    spec fn configured(&self, after: &Self) -> bool;

    /// Whether one update on `input` may turn this game into `after` and
    /// share `state`.
    spec fn updated(&self, input: I, after: &Self, state: K) -> bool;

    /// The input that stands for "nothing was sent".
    spec fn idle_input(&self) -> I;

    /// Whether the game has ended.
    spec fn over(&self) -> bool;

    /// Sets the world up, once, before the first update.
    fn world_config(&mut self)
        ensures
            old(self).configured(final(self)),
    ;

    /// Advances the game by one tick on the input collected since the last
    /// one, and returns the complete state to share with the clients.
    fn update(&mut self, input: I) -> (state: K)
        ensures
            old(self).updated(input, final(self), state),
    ;

    /// The input to start the next tick from.
    fn reset_input(&self) -> (input: I)
        ensures
            input == self.idle_input(),
    ;

    /// Draws the game. The engine does not call it yet.
    fn render(&mut self);

    /// Whether the game has ended, so that the loop stops.
    fn end_game(&self) -> (over: bool)
        ensures
            over == self.over(),
    ;
}

} // verus!
