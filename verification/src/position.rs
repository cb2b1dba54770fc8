use vstd::prelude::*;

use crate::direction::{delta_x, delta_y, Direction};

verus! {

/// A cell coordinate on the level grid: `x` grows eastward, `y` southward.
#[derive(Clone, Copy, Debug, PartialEq, Eq, Structural)]
pub struct Position {
    pub x: i8,
    pub y: i8,
}

/// The position one step from `p` in direction `d`, as mathematical integers.
pub open spec fn step_x(p: Position, d: Direction) -> int {
    p.x + delta_x(d)
}

pub open spec fn step_y(p: Position, d: Direction) -> int {
    p.y + delta_y(d)
}

/// The neighbour of `p` in direction `d` (meaningful when it fits in `i8`).
pub open spec fn offset_spec(p: Position, d: Direction) -> Position {
    Position { x: (p.x + delta_x(d)) as i8, y: (p.y + delta_y(d)) as i8 }
}

/// Squared Euclidean distance between two positions.
pub open spec fn distance_squared_spec(a: Position, b: Position) -> int {
    (b.x - a.x) * (b.x - a.x) + (b.y - a.y) * (b.y - a.y)
}

impl Position {
    pub fn new(x: i8, y: i8) -> (p: Self)
        ensures
            p.x == x,
            p.y == y,
    {
        Position { x, y }
    }

    /// The neighbouring position one step away in `direction`.
    pub fn offset(self, direction: Direction) -> (p: Self)
        requires
            i8::MIN <= step_x(self, direction) <= i8::MAX,
            i8::MIN <= step_y(self, direction) <= i8::MAX,
        ensures
            p.x == step_x(self, direction),
            p.y == step_y(self, direction),
            p == offset_spec(self, direction),
    {
        let (dx, dy) = direction.delta();
        Position::new(self.x + dx, self.y + dy)
    }

    /// Squared Euclidean distance to `other`.
    pub fn distance_squared(self, other: Self) -> (d: i16)
        requires
            i8::MIN <= other.x - self.x <= i8::MAX,
            i8::MIN <= other.y - self.y <= i8::MAX,
            distance_squared_spec(self, other) <= i16::MAX,
        ensures
            d == distance_squared_spec(self, other),
    {
        let dx = (other.x - self.x) as i16;
        let dy = (other.y - self.y) as i16;
        assert(dx * dx >= 0) by (nonlinear_arith);
        assert(dy * dy >= 0) by (nonlinear_arith);
        dx * dx + dy * dy
    }
}

} // verus!
