//! An example game on the engine and the server: players join, walk over a
//! plane with the keys W, A, S and D, and leave.
//!
//! This file holds what server and client share: the messages that clients
//! send, the state that the server broadcasts, and the position component.

pub mod client;
pub mod multiplayer;
pub mod server;

use vstd::prelude::*;

verus! {

/// What a client can tell the server.
#[derive(Clone, Copy, Debug, PartialEq, Eq, Structural)]
pub enum Message {
    Idle,
    W,
    A,
    S,
    D,
    AddPlayer,
    RemovePlayer,
}

/// The state that the server shares with every client: the value of every
/// counter and the position of every player, each list in no particular
/// order.
#[derive(Debug, Clone)]
pub struct SharedState {
    pub counters: Vec<u32>,
    pub registry: Vec<Position>,
}

impl SharedState {
    /// The state of a world without counters and players.
    pub fn new() -> (state: Self)
        ensures
            state.counters@ == Seq::<u32>::empty(),
            state.registry@ == Seq::<Position>::empty(),
    {
        Self { registry: Vec::new(), counters: Vec::new() }
    }
}

/// Position component: a point of the plane, or a step on it.
#[derive(Debug, Clone, Copy, PartialEq, Eq, Structural)]
pub struct Position {
    x: i32,
    y: i32,
}

impl Position {
    /// The two coordinates.
    pub closed spec fn coordinates(&self) -> (int, int) {
        (self.x as int, self.y as int)
    }

    /// Whether both coordinates of the sum with `other` are 32-bit numbers.
    pub open spec fn can_add(&self, other: Position) -> bool {
        &&& i32::MIN <= self.coordinates().0 + other.coordinates().0 <= i32::MAX
        &&& i32::MIN <= self.coordinates().1 + other.coordinates().1 <= i32::MAX
    }

    /// The origin.
    pub closed spec fn origin() -> Position {
        Position { x: 0, y: 0 }
    }

    /// The step by `x` to the right and `y` up.
    pub closed spec fn step(x: i32, y: i32) -> Position {
        Position { x, y }
    }

    /// The sum of two positions, coordinate by coordinate.
    pub closed spec fn spec_sum(a: Position, b: Position) -> Position {
        Position { x: (a.x + b.x) as i32, y: (a.y + b.y) as i32 }
    }

    /// The origin.
    pub fn new() -> (position: Self)
        ensures
            position == Position::origin(),
            position.coordinates() == (0int, 0int),
    {
        Self { x: 0, y: 0 }
    }

    /// The step by `x` to the right and `y` up.
    pub fn displacement(x: i32, y: i32) -> (position: Self)
        ensures
            position == Position::step(x, y),
            position.coordinates() == (x as int, y as int),
    {
        Self { x, y }
    }

    /// The first coordinate.
    pub fn x(&self) -> (x: i32)
        ensures
            x == self.coordinates().0,
    {
        self.x
    }

    /// The second coordinate.
    pub fn y(&self) -> (y: i32)
        ensures
            y == self.coordinates().1,
    {
        self.y
    }

    /// The sum of the two, coordinate by coordinate, where both sums are
    /// 32-bit numbers.
    pub fn checked_add(&self, other: Self) -> (sum: Option<Self>)
        ensures
            sum is Some == self.can_add(other),
            sum matches Some(position) ==> position == Position::spec_sum(*self, other),
            sum matches Some(position) ==> position.coordinates() == (
                self.coordinates().0 + other.coordinates().0,
                self.coordinates().1 + other.coordinates().1,
            ),
    {
        match (self.x.checked_add(other.x), self.y.checked_add(other.y)) {
            (Some(x), Some(y)) => Some(Self { x, y }),
            _ => None,
        }
    }

    /// Moves this position by `other`.
    pub fn add_assign(&mut self, other: Self)
        requires
            old(self).can_add(other),
        ensures
            *final(self) == Position::spec_sum(*old(self), other),
            final(self).coordinates() == (
                old(self).coordinates().0 + other.coordinates().0,
                old(self).coordinates().1 + other.coordinates().1,
            ),
    {
        *self = Self { x: self.x + other.x, y: self.y + other.y };
    }
}

} // verus!
