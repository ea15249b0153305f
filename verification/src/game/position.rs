//! Positions on the plane.

use vstd::prelude::*;
use vstd::std_specs::ops::AddSpecImpl;

verus! {

/// A point of the plane, or a step on it.
#[derive(Debug, Copy, Clone, PartialEq, Eq, Structural)]
pub struct Position {
    pub x: i32,
    pub y: i32,
}

/// Whether a coordinate moved by a step is still a 32-bit number.
pub open spec fn fits(coordinate: i32, step: i32) -> bool {
    i32::MIN <= coordinate + step <= i32::MAX
}

impl Position {
    /// The origin.
    pub fn new() -> (position: Self)
        ensures
            position == (Position { x: 0, y: 0 }),
    {
        Position { x: 0, y: 0 }
    }

    /// The step by `x` to the right and `y` up.
    pub fn direction(x: i32, y: i32) -> (position: Self)
        ensures
            position == (Position { x, y }),
    {
        Position { x, y }
    }

    /// One step up.
    pub fn up() -> (position: Self)
        ensures
            position == (Position { x: 0, y: 1 }),
    {
        Position::direction(0, 1)
    }

    /// One step down.
    pub fn down() -> (position: Self)
        ensures
            position == (Position { x: 0, y: -1i32 }),
    {
        Position::direction(0, -1)
    }

    /// One step to the left.
    pub fn left() -> (position: Self)
        ensures
            position == (Position { x: -1i32, y: 0 }),
    {
        Position::direction(-1, 0)
    }

    /// One step to the right.
    pub fn right() -> (position: Self)
        ensures
            position == (Position { x: 1, y: 0 }),
    {
        Position::direction(1, 0)
    }

    /// Moves the position one step to the right and one up.
    pub fn displace_unit(&mut self)
        requires
            fits(old(self).x, 1),
            fits(old(self).y, 1),
        ensures
            final(self).x == old(self).x + 1,
            final(self).y == old(self).y + 1,
    {
        self.displace(1, 1);
    }

    /// Moves the position by `x` to the right and `y` up.
    pub fn displace(&mut self, x: i32, y: i32)
        requires
            fits(old(self).x, x),
            fits(old(self).y, y),
        ensures
            final(self).x == old(self).x + x,
            final(self).y == old(self).y + y,
    {
        self.x += x;
        self.y += y;
    }

    /// Moves the position by `other`.
    pub fn add_assign(&mut self, other: Self)
        requires
            fits(old(self).x, other.x),
            fits(old(self).y, other.y),
        ensures
            final(self).x == old(self).x + other.x,
            final(self).y == old(self).y + other.y,
    {
        *self = Self { x: self.x + other.x, y: self.y + other.y };
    }
}

impl std::ops::Add for Position {
    type Output = Self;

    fn add(self, other: Self) -> (sum: Self) {
        Self { x: self.x + other.x, y: self.y + other.y }
    }
}

impl AddSpecImpl for Position {
    open spec fn obeys_add_spec() -> bool {
        true
    }

    open spec fn add_req(self, other: Self) -> bool {
        fits(self.x, other.x) && fits(self.y, other.y)
    }

    open spec fn add_spec(self, other: Self) -> Self {
        Self { x: (self.x + other.x) as i32, y: (self.y + other.y) as i32 }
    }
}

} // verus!
