use vstd::prelude::*;

use crate::position::Position;

verus! {

/// The eight compass directions in which actors face and move.
///
/// The declaration order is the tie-break order used when a rat chooses
/// between equally good moves.
#[derive(Clone, Copy, Debug, PartialEq, Eq, Structural)]
pub enum Direction {
    East,
    West,
    North,
    South,
    Northeast,
    Northwest,
    Southeast,
    Southwest,
}

/// Column step of a direction (east is positive).
pub open spec fn delta_x(d: Direction) -> int {
    match d {
        Direction::East | Direction::Northeast | Direction::Southeast => 1,
        Direction::West | Direction::Northwest | Direction::Southwest => -1,
        Direction::North | Direction::South => 0,
    }
}

/// Row step of a direction (south is positive).
pub open spec fn delta_y(d: Direction) -> int {
    match d {
        Direction::North | Direction::Northeast | Direction::Northwest => -1,
        Direction::South | Direction::Southeast | Direction::Southwest => 1,
        Direction::East | Direction::West => 0,
    }
}

/// Sign of an integer: -1, 0 or 1.
pub open spec fn sign(v: int) -> int {
    if v > 0 {
        1
    } else if v < 0 {
        -1
    } else {
        0
    }
}

/// Position of a declaration in the enum, used to break ties.
pub open spec fn rank_of(d: Direction) -> int {
    match d {
        Direction::East => 0,
        Direction::West => 1,
        Direction::North => 2,
        Direction::South => 3,
        Direction::Northeast => 4,
        Direction::Northwest => 5,
        Direction::Southeast => 6,
        Direction::Southwest => 7,
    }
}

/// The direction whose step is `(dx, dy)`, if any.
pub open spec fn direction_with_delta(dx: int, dy: int) -> Option<Direction> {
    if dx == 1 && dy == 0 {
        Some(Direction::East)
    } else if dx == -1 && dy == 0 {
        Some(Direction::West)
    } else if dx == 0 && dy == -1 {
        Some(Direction::North)
    } else if dx == 0 && dy == 1 {
        Some(Direction::South)
    } else if dx == 1 && dy == -1 {
        Some(Direction::Northeast)
    } else if dx == -1 && dy == -1 {
        Some(Direction::Northwest)
    } else if dx == 1 && dy == 1 {
        Some(Direction::Southeast)
    } else if dx == -1 && dy == 1 {
        Some(Direction::Southwest)
    } else {
        None
    }
}

pub open spec fn is_diagonal_spec(d: Direction) -> bool {
    delta_x(d) != 0 && delta_y(d) != 0
}

pub open spec fn opposite_spec(d: Direction) -> Direction {
    direction_with_delta(-delta_x(d), -delta_y(d))->0
}

pub open spec fn movement_cost_spec(d: Direction) -> int {
    if is_diagonal_spec(d) {
        2
    } else {
        1
    }
}

/// The direction that points from `from` toward `to`, one step on each axis.
pub open spec fn toward_spec(from: Position, to: Position) -> Option<Direction> {
    direction_with_delta(sign(to.x - from.x), sign(to.y - from.y))
}

/// The horizontal part of a direction.
pub open spec fn x_only_spec(d: Direction) -> Option<Direction> {
    direction_with_delta(delta_x(d), 0)
}

/// The vertical part of a direction.
pub open spec fn y_only_spec(d: Direction) -> Option<Direction> {
    direction_with_delta(0, delta_y(d))
}

/// Turning around twice faces the first way again, and the opposite
/// direction steps the other way on both axes.
pub proof fn lemma_opposite_involution(d: Direction)
    ensures
        opposite_spec(opposite_spec(d)) == d,
        delta_x(opposite_spec(d)) == -delta_x(d),
        delta_y(opposite_spec(d)) == -delta_y(d),
        opposite_spec(d) != d,
{
}

impl Direction {
    /// The `(dx, dy)` step taken when moving one cell this way.
    pub fn delta(self) -> (r: (i8, i8))
        ensures
            r.0 == delta_x(self),
            r.1 == delta_y(self),
    {
        match self {
            Direction::East => (1, 0),
            Direction::West => (-1, 0),
            Direction::North => (0, -1),
            Direction::South => (0, 1),
            Direction::Northeast => (1, -1),
            Direction::Northwest => (-1, -1),
            Direction::Southeast => (1, 1),
            Direction::Southwest => (-1, 1),
        }
    }

    /// The direction facing the other way.
    pub fn opposite(self) -> (r: Self)
        ensures
            r == opposite_spec(self),
            delta_x(r) == -delta_x(self),
            delta_y(r) == -delta_y(self),
    {
        match self {
            Direction::East => Direction::West,
            Direction::West => Direction::East,
            Direction::North => Direction::South,
            Direction::South => Direction::North,
            Direction::Northeast => Direction::Southwest,
            Direction::Northwest => Direction::Southeast,
            Direction::Southeast => Direction::Northwest,
            Direction::Southwest => Direction::Northeast,
        }
    }

    /// Whether the direction moves along both axes at once.
    pub fn is_diagonal(self) -> (r: bool)
        ensures
            r == is_diagonal_spec(self),
    {
        match self {
            Direction::Northeast | Direction::Northwest | Direction::Southeast
            | Direction::Southwest => true,
            _ => false,
        }
    }

    /// Cost of a step: diagonal steps cost twice as much.
    pub fn movement_cost(self) -> (r: i16)
        ensures
            r == movement_cost_spec(self),
    {
        if self.is_diagonal() {
            2
        } else {
            1
        }
    }

    /// The tie-break rank of the direction: its place in declaration order.
    pub fn tie_break_rank(self) -> (r: u8)
        ensures
            r == rank_of(self),
    {
        match self {
            Direction::East => 0,
            Direction::West => 1,
            Direction::North => 2,
            Direction::South => 3,
            Direction::Northeast => 4,
            Direction::Northwest => 5,
            Direction::Southeast => 6,
            Direction::Southwest => 7,
        }
    }

    /// The direction pointing from `from` toward `to`; `None` when they coincide.
    pub fn toward(from: Position, to: Position) -> (r: Option<Self>)
        requires
            i8::MIN <= to.x - from.x <= i8::MAX,
            i8::MIN <= to.y - from.y <= i8::MAX,
        ensures
            r == toward_spec(from, to),
            r is None <==> from == to,
            r matches Some(d) ==> delta_x(d) == sign(to.x - from.x) && delta_y(d) == sign(
                to.y - from.y,
            ),
    {
        let dx: i8 = to.x - from.x;
        let dy: i8 = to.y - from.y;
        let sx: i8 = if dx > 0 {
            1
        } else if dx < 0 {
            -1
        } else {
            0
        };
        let sy: i8 = if dy > 0 {
            1
        } else if dy < 0 {
            -1
        } else {
            0
        };
        if sx == 1 && sy == 0 {
            Some(Direction::East)
        } else if sx == -1 && sy == 0 {
            Some(Direction::West)
        } else if sx == 0 && sy == -1 {
            Some(Direction::North)
        } else if sx == 0 && sy == 1 {
            Some(Direction::South)
        } else if sx == 1 && sy == -1 {
            Some(Direction::Northeast)
        } else if sx == -1 && sy == -1 {
            Some(Direction::Northwest)
        } else if sx == 1 && sy == 1 {
            Some(Direction::Southeast)
        } else if sx == -1 && sy == 1 {
            Some(Direction::Southwest)
        } else {
            None
        }
    }

    /// The horizontal component of the direction, if it has one.
    pub fn x_only(self) -> (r: Option<Self>)
        ensures
            r == x_only_spec(self),
    {
        match self {
            Direction::East | Direction::Northeast | Direction::Southeast => Some(Direction::East),
            Direction::West | Direction::Northwest | Direction::Southwest => Some(Direction::West),
            Direction::North | Direction::South => None,
        }
    }

    /// The vertical component of the direction, if it has one.
    pub fn y_only(self) -> (r: Option<Self>)
        ensures
            r == y_only_spec(self),
    {
        match self {
            Direction::North | Direction::Northeast | Direction::Northwest => Some(
                Direction::North,
            ),
            Direction::South | Direction::Southeast | Direction::Southwest => Some(
                Direction::South,
            ),
            Direction::East | Direction::West => None,
        }
    }
}

} // verus!
