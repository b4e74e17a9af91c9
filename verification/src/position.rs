//! Grid cells and the side on which one cell lies of another.

use vstd::prelude::*;

verus! {

/// One cell of the grid, by column `x` and row `y`. Rows grow upwards.
#[derive(Debug, Clone, Copy, PartialEq, Eq, Hash, Structural)]
pub struct Position {
    pub x: i32,
    pub y: i32,
}

/// The side of a cell on which an orthogonal neighbour lies.
#[derive(Debug, Clone, Copy, PartialEq, Eq, Hash, Structural)]
pub enum RelativePosition {
    North,
    South,
    East,
    West,
}

impl RelativePosition {
    /// The horizontal offset of the neighbour on this side.
    pub open spec fn dx(self) -> int {
        match self {
            RelativePosition::East => 1,
            RelativePosition::West => -1,
            _ => 0,
        }
    }

    /// The vertical offset of the neighbour on this side.
    pub open spec fn dy(self) -> int {
        match self {
            RelativePosition::North => 1,
            RelativePosition::South => -1,
            _ => 0,
        }
    }

    /// The side that faces this one.
    pub open spec fn spec_opposite(self) -> RelativePosition {
        match self {
            RelativePosition::North => RelativePosition::South,
            RelativePosition::South => RelativePosition::North,
            RelativePosition::East => RelativePosition::West,
            RelativePosition::West => RelativePosition::East,
        }
    }

    /// The side that faces this one.
    pub fn opposite(self) -> (side: RelativePosition)
        ensures
            side == self.spec_opposite(),
            side.dx() == -self.dx(),
            side.dy() == -self.dy(),
    {
        match self {
            RelativePosition::North => RelativePosition::South,
            RelativePosition::South => RelativePosition::North,
            RelativePosition::East => RelativePosition::West,
            RelativePosition::West => RelativePosition::East,
        }
    }

    /// The rotation, in quarter turns counter-clockwise, that turns artwork
    /// drawn facing north towards this side.
    pub open spec fn spec_quarter_turns(self) -> int {
        match self {
            RelativePosition::North => 0,
            RelativePosition::West => 1,
            RelativePosition::South => 2,
            RelativePosition::East => 3,
        }
    }

    /// The rotation, in quarter turns counter-clockwise, that turns artwork
    /// drawn facing north towards this side.
    pub fn quarter_turns(self) -> (turns: u8)
        ensures
            turns == self.spec_quarter_turns(),
    {
        match self {
            RelativePosition::North => 0,
            RelativePosition::West => 1,
            RelativePosition::South => 2,
            RelativePosition::East => 3,
        }
    }
}

impl Position {
    /// `other` lies one step from `self` along exactly one axis.
    pub open spec fn adjacent(self, other: Position) -> bool {
        exists|side: RelativePosition| other.is_neighbor(self, side)
    }

    /// `self` is the neighbour of `origin` on the given side.
    pub open spec fn is_neighbor(self, origin: Position, side: RelativePosition) -> bool {
        self.x == origin.x + side.dx() && self.y == origin.y + side.dy()
    }

    /// The side of `self` on which the adjacent cell `other` lies.
    pub open spec fn side_of(self, other: Position) -> RelativePosition {
        if other.y > self.y {
            RelativePosition::North
        } else if other.y < self.y {
            RelativePosition::South
        } else if other.x > self.x {
            RelativePosition::East
        } else {
            RelativePosition::West
        }
    }

    /// The cell in column `x` and row `y`.
    pub fn new(x: i32, y: i32) -> (cell: Position)
        ensures
            cell.x == x,
            cell.y == y,
    {
        Position { x, y }
    }

    /// Whether `other` lies one step from `self` along exactly one axis.
    pub fn is_adjacent(&self, other: &Position) -> (adjacent: bool)
        ensures
            adjacent == self.adjacent(*other),
    {
        let dx: i64 = other.x as i64 - self.x as i64;
        let dy: i64 = other.y as i64 - self.y as i64;
        let adjacent = (dx == 0 && (dy == 1 || dy == -1)) || (dy == 0 && (dx == 1 || dx == -1));
        proof {
            if adjacent {
                let side = if dy == 1 {
                    RelativePosition::North
                } else if dy == -1 {
                    RelativePosition::South
                } else if dx == 1 {
                    RelativePosition::East
                } else {
                    RelativePosition::West
                };
                assert(other.is_neighbor(*self, side));
            }
        }
        adjacent
    }

    /// The side of `self` on which `other` lies. The rows are compared first,
    /// then the columns; the two cells must be orthogonal neighbours.
    pub fn detect_side(&self, other: &Position) -> (side: RelativePosition)
        requires
            self.adjacent(*other),
        ensures
            other.is_neighbor(*self, side),
            side == self.side_of(*other),
    {
        if other.y > self.y {
            RelativePosition::North
        } else if other.y < self.y {
            RelativePosition::South
        } else if other.x > self.x {
            RelativePosition::East
        } else {
            RelativePosition::West
        }
    }
}

/// A cell is the neighbour of another on one side at most, and the side is
/// the one that comparing rows first and columns second finds.
pub proof fn lemma_side_is_unique(origin: Position, other: Position, side: RelativePosition)
    requires
        other.is_neighbor(origin, side),
    ensures
        origin.adjacent(other),
        origin.side_of(other) == side,
        origin.is_neighbor(other, side.spec_opposite()),
        other.side_of(origin) == side.spec_opposite(),
        other != origin,
{
}

} // verus!
