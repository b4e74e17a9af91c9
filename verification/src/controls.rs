//! Travel directions, and the commitment to one of them that keeps the snake
//! from reversing into its own neck.

use crate::position::Position;
use crate::position::RelativePosition;
use crate::snake::Snake;
use vstd::prelude::*;

verus! {

/// A direction of travel. `Up` leads to the next higher row.
#[derive(Debug, Clone, Copy, PartialEq, Eq, Hash, Structural)]
pub enum Direction {
    Up,
    Down,
    Left,
    Right,
}

impl Default for Direction {
    fn default() -> (direction: Direction)
        ensures
            direction == Direction::Right,
    {
        Direction::Right
    }
}

impl Direction {
    /// The side of a cell towards which this direction leads.
    pub open spec fn spec_side(self) -> RelativePosition {
        match self {
            Direction::Up => RelativePosition::North,
            Direction::Down => RelativePosition::South,
            Direction::Left => RelativePosition::West,
            Direction::Right => RelativePosition::East,
        }
    }

    /// The direction that leads to the given side of a cell.
    pub open spec fn spec_toward(side: RelativePosition) -> Direction {
        match side {
            RelativePosition::North => Direction::Up,
            RelativePosition::South => Direction::Down,
            RelativePosition::West => Direction::Left,
            RelativePosition::East => Direction::Right,
        }
    }

    /// The change of column that one step makes.
    pub open spec fn dx(self) -> int {
        self.spec_side().dx()
    }

    /// The change of row that one step makes.
    pub open spec fn dy(self) -> int {
        self.spec_side().dy()
    }

    /// The reverse direction.
    pub open spec fn spec_opposite(self) -> Direction {
        Direction::spec_toward(self.spec_side().spec_opposite())
    }

    /// The side of a cell towards which this direction leads.
    pub fn side(self) -> (side: RelativePosition)
        ensures
            side == self.spec_side(),
            Direction::spec_toward(side) == self,
    {
        match self {
            Direction::Up => RelativePosition::North,
            Direction::Down => RelativePosition::South,
            Direction::Left => RelativePosition::West,
            Direction::Right => RelativePosition::East,
        }
    }

    /// The direction that leads to the given side of a cell.
    pub fn toward(side: RelativePosition) -> (direction: Direction)
        ensures
            direction == Direction::spec_toward(side),
            direction.spec_side() == side,
    {
        match side {
            RelativePosition::North => Direction::Up,
            RelativePosition::South => Direction::Down,
            RelativePosition::West => Direction::Left,
            RelativePosition::East => Direction::Right,
        }
    }

    /// The reverse direction.
    pub fn opposite(self) -> (reverse: Direction)
        ensures
            reverse == self.spec_opposite(),
            reverse.dx() == -self.dx(),
            reverse.dy() == -self.dy(),
    {
        match self {
            Direction::Up => Direction::Down,
            Direction::Down => Direction::Up,
            Direction::Left => Direction::Right,
            Direction::Right => Direction::Left,
        }
    }

    /// One step in this direction, as an offset in columns and rows.
    pub fn unit_vector(self) -> (step: Position)
        ensures
            step.x == self.dx(),
            step.y == self.dy(),
    {
        match self {
            Direction::Up => Position::new(0, 1),
            Direction::Down => Position::new(0, -1),
            Direction::Left => Position::new(-1, 0),
            Direction::Right => Position::new(1, 0),
        }
    }
}

/// One step from the head in the requested direction lands on the neck.
/// A body without a neck cannot be reversed into.
pub open spec fn reverses(body: Seq<Position>, requested: Direction) -> bool {
    &&& body.len() >= 2
    &&& body[1].x == body[0].x + requested.dx()
    &&& body[1].y == body[0].y + requested.dy()
}

/// The committed direction of travel.
#[derive(Debug, Clone, Copy, PartialEq, Eq, Structural)]
pub struct DirectionGate {
    pub direction: Direction,
}

impl Default for DirectionGate {
    fn default() -> (gate: DirectionGate)
        ensures
            gate.direction == Direction::Right,
    {
        DirectionGate { direction: Direction::Right }
    }
}

impl DirectionGate {
    /// A gate committed to the initial direction, `Right`.
    pub fn new() -> (gate: DirectionGate)
        ensures
            gate.direction == Direction::Right,
    {
        DirectionGate { direction: Direction::Right }
    }

    /// The committed direction.
    pub fn current(&self) -> (direction: Direction)
        ensures
            direction == self.direction,
    {
        self.direction
    }

    /// Commits to `requested`, unless one step that way from the head lands on
    /// the neck: then the earlier commitment stays.
    pub fn set(&mut self, requested: Direction, snake: &Snake)
        requires
            snake@.len() >= 1,
        ensures
            final(self).direction == if reverses(snake@, requested) {
                old(self).direction
            } else {
                requested
            },
    {
        if !would_reverse(snake, requested) {
            self.direction = requested;
        }
    }
}

/// Which of the four arrow keys are held down.
#[derive(Debug, Clone, Copy, PartialEq, Eq, Structural)]
pub struct ArrowKeys {
    pub up: bool,
    pub down: bool,
    pub left: bool,
    pub right: bool,
}

/// The direction that the held keys ask for: that of the first held key,
/// taken in the order up, down, left, right.
pub open spec fn requested_by(keys: ArrowKeys) -> Option<Direction> {
    if keys.up {
        Some(Direction::Up)
    } else if keys.down {
        Some(Direction::Down)
    } else if keys.left {
        Some(Direction::Left)
    } else if keys.right {
        Some(Direction::Right)
    } else {
        None
    }
}

/// Hands the direction that the held keys ask for to the direction gate.
/// With no key held the commitment stays.
pub fn user_input(keys: &ArrowKeys, snake: &Snake, last_pressed: &mut DirectionGate)
    requires
        snake@.len() >= 1,
    ensures
        final(last_pressed).direction == match requested_by(*keys) {
            Some(requested) => if reverses(snake@, requested) {
                old(last_pressed).direction
            } else {
                requested
            },
            None => old(last_pressed).direction,
        },
{
    if keys.up {
        last_pressed.set(Direction::Up, snake);
    } else if keys.down {
        last_pressed.set(Direction::Down, snake);
    } else if keys.left {
        last_pressed.set(Direction::Left, snake);
    } else if keys.right {
        last_pressed.set(Direction::Right, snake);
    }
}

/// Whether one step from the head in the requested direction lands on the
/// neck.
pub fn would_reverse(snake: &Snake, requested: Direction) -> (blocked: bool)
    requires
        snake@.len() >= 1,
    ensures
        blocked == reverses(snake@, requested),
{
    let head = snake.head();
    match snake.neck() {
        Some(neck) => {
            let step = requested.unit_vector();
            neck.x as i64 == head.x as i64 + step.x as i64 && neck.y as i64 == head.y as i64
                + step.y as i64
        },
        None => false,
    }
}

/// Between two adjacent cells exactly one direction reverses: of the four
/// requests, `set` turns down the one that leads from the head to the neck,
/// which is the reverse of the one that leads from the neck to the head, and
/// no other.
pub proof fn lemma_one_direction_reverses(body: Seq<Position>, requested: Direction)
    requires
        body.len() >= 2,
        body[0].adjacent(body[1]),
    ensures
        reverses(body, requested) <==> requested == Direction::spec_toward(body[0].side_of(body[1])),
        reverses(body, requested) <==> requested == Direction::spec_toward(
            body[1].side_of(body[0]),
        ).spec_opposite(),
{
    let side = choose|side: RelativePosition| body[1].is_neighbor(body[0], side);
    crate::position::lemma_side_is_unique(body[0], body[1], side);
}

/// A gate that does not reverse before a request does not reverse after it.
pub proof fn lemma_set_never_reverses(body: Seq<Position>, before: Direction, requested: Direction)
    requires
        !reverses(body, before),
    ensures
        !reverses(body, if reverses(body, requested) { before } else { requested }),
{
}

} // verus!
