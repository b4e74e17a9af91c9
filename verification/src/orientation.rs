//! The orientation of each segment of the body, derived from where its
//! neighbours lie. Nothing here changes the body.

use crate::controls::Direction;
use crate::position::lemma_side_is_unique;
use crate::position::Position;
use crate::position::RelativePosition;
use crate::snake::chained;
use crate::snake::Snake;
use vstd::prelude::*;

verus! {

/// The line along which a straight segment runs.
#[derive(Debug, Clone, Copy, PartialEq, Eq, Hash, Structural)]
pub enum Axis {
    Horizontal,
    Vertical,
}

/// The two sides that a corner segment joins.
#[derive(Debug, Clone, Copy, PartialEq, Eq, Hash, Structural)]
pub enum CornerKind {
    NorthEast,
    NorthWest,
    SouthEast,
    SouthWest,
}

/// How a segment is drawn.
#[derive(Debug, Clone, Copy, PartialEq, Eq, Hash, Structural)]
pub enum SegmentOrientation {
    /// The head, pointing away from the neck.
    HeadFacing(Direction),
    /// The tail, pointing away from the segment before it.
    TailFacing(Direction),
    /// A segment whose neighbours lie on opposite sides.
    Straight(Axis),
    /// A segment whose neighbours lie on two sides that meet.
    Corner(CornerKind),
}

impl Axis {
    /// The side lies on this axis.
    pub open spec fn along(self, side: RelativePosition) -> bool {
        match self {
            Axis::Horizontal => side == RelativePosition::East || side == RelativePosition::West,
            Axis::Vertical => side == RelativePosition::North || side == RelativePosition::South,
        }
    }
}

impl CornerKind {
    /// The side is one of the two that this corner joins.
    pub open spec fn joins(self, side: RelativePosition) -> bool {
        match self {
            CornerKind::NorthEast => side == RelativePosition::North || side
                == RelativePosition::East,
            CornerKind::NorthWest => side == RelativePosition::North || side
                == RelativePosition::West,
            CornerKind::SouthEast => side == RelativePosition::South || side
                == RelativePosition::East,
            CornerKind::SouthWest => side == RelativePosition::South || side
                == RelativePosition::West,
        }
    }
}

/// The side reached from `side` by the given number of quarter turns
/// counter-clockwise.
pub open spec fn turned(side: RelativePosition, quarter_turns: int) -> RelativePosition
    decreases quarter_turns,
{
    if quarter_turns <= 0 {
        side
    } else {
        turned(
            match side {
                RelativePosition::North => RelativePosition::West,
                RelativePosition::West => RelativePosition::South,
                RelativePosition::South => RelativePosition::East,
                RelativePosition::East => RelativePosition::North,
            },
            quarter_turns - 1,
        )
    }
}

/// The orientation of a segment between two others, one on side `a` and one
/// on side `b` of it.
pub open spec fn spec_between(a: RelativePosition, b: RelativePosition) -> SegmentOrientation {
    if a == b.spec_opposite() {
        SegmentOrientation::Straight(
            if Axis::Vertical.along(a) {
                Axis::Vertical
            } else {
                Axis::Horizontal
            },
        )
    } else {
        SegmentOrientation::Corner(
            if CornerKind::NorthEast.joins(a) && CornerKind::NorthEast.joins(b) {
                CornerKind::NorthEast
            } else if CornerKind::NorthWest.joins(a) && CornerKind::NorthWest.joins(b) {
                CornerKind::NorthWest
            } else if CornerKind::SouthEast.joins(a) && CornerKind::SouthEast.joins(b) {
                CornerKind::SouthEast
            } else {
                CornerKind::SouthWest
            },
        )
    }
}

/// The segment at index `i` has different cells before it and after it.
pub open spec fn unfolded_at(body: Seq<Position>, i: int) -> bool {
    body[i - 1] != body[i + 1]
}

/// The body can be oriented: it has a head and a tail, each segment is an
/// orthogonal neighbour of the next, and no segment has the same cell before
/// it and after it.
pub open spec fn orientable(body: Seq<Position>) -> bool {
    &&& body.len() >= 2
    &&& chained(body)
    &&& forall|i: int| 0 < i < body.len() - 1 ==> #[trigger] unfolded_at(body, i)
}

/// The orientation of the segment at index `i` of the body.
pub open spec fn orientation_at(body: Seq<Position>, i: int) -> SegmentOrientation {
    if i == 0 {
        SegmentOrientation::HeadFacing(
            Direction::spec_toward(body[0].side_of(body[1]).spec_opposite()),
        )
    } else if i == body.len() - 1 {
        SegmentOrientation::TailFacing(
            Direction::spec_toward(body[i].side_of(body[i - 1]).spec_opposite()),
        )
    } else {
        spec_between(body[i].side_of(body[i - 1]), body[i].side_of(body[i + 1]))
    }
}

/// The orientation of every segment of the body, head first.
pub open spec fn spec_orientations(body: Seq<Position>) -> Seq<SegmentOrientation> {
    Seq::new(body.len(), |i: int| orientation_at(body, i))
}

impl SegmentOrientation {
    /// The rotation of the segment's artwork, in quarter turns
    /// counter-clockwise. Unrotated, a head and a tail point north, a
    /// straight segment runs north to south, and a corner joins north and
    /// east.
    pub open spec fn spec_quarter_turns(self) -> int {
        match self {
            SegmentOrientation::HeadFacing(direction) => direction.spec_side().spec_quarter_turns(),
            SegmentOrientation::TailFacing(direction) => direction.spec_side().spec_quarter_turns(),
            SegmentOrientation::Straight(Axis::Vertical) => 0,
            SegmentOrientation::Straight(Axis::Horizontal) => 1,
            SegmentOrientation::Corner(CornerKind::NorthEast) => 0,
            SegmentOrientation::Corner(CornerKind::NorthWest) => 1,
            SegmentOrientation::Corner(CornerKind::SouthWest) => 2,
            SegmentOrientation::Corner(CornerKind::SouthEast) => 3,
        }
    }

    /// The orientation of a segment between two others, one on side `a` and
    /// one on side `b` of it. The two sides differ, or the body would overlap
    /// itself.
    pub fn between(a: RelativePosition, b: RelativePosition) -> (orientation: SegmentOrientation)
        requires
            a != b,
        ensures
            orientation == spec_between(a, b),
            orientation == spec_between(b, a),
            match orientation {
                SegmentOrientation::Straight(axis) => axis.along(a) && axis.along(b),
                SegmentOrientation::Corner(kind) => kind.joins(a) && kind.joins(b),
                _ => false,
            },
    {
        match (a, b) {
            (RelativePosition::North, RelativePosition::South)
            | (RelativePosition::South, RelativePosition::North) => SegmentOrientation::Straight(
                Axis::Vertical,
            ),
            (RelativePosition::East, RelativePosition::West)
            | (RelativePosition::West, RelativePosition::East) => SegmentOrientation::Straight(
                Axis::Horizontal,
            ),
            (RelativePosition::North, RelativePosition::East)
            | (RelativePosition::East, RelativePosition::North) => SegmentOrientation::Corner(
                CornerKind::NorthEast,
            ),
            (RelativePosition::North, RelativePosition::West)
            | (RelativePosition::West, RelativePosition::North) => SegmentOrientation::Corner(
                CornerKind::NorthWest,
            ),
            (RelativePosition::South, RelativePosition::East)
            | (RelativePosition::East, RelativePosition::South) => SegmentOrientation::Corner(
                CornerKind::SouthEast,
            ),
            _ => SegmentOrientation::Corner(CornerKind::SouthWest),
        }
    }

    /// The rotation of the segment's artwork, in quarter turns
    /// counter-clockwise.
    pub fn quarter_turns(&self) -> (turns: u8)
        ensures
            turns == self.spec_quarter_turns(),
            0 <= turns < 4,
    {
        match self {
            SegmentOrientation::HeadFacing(direction) => direction.side().quarter_turns(),
            SegmentOrientation::TailFacing(direction) => direction.side().quarter_turns(),
            SegmentOrientation::Straight(Axis::Vertical) => 0,
            SegmentOrientation::Straight(Axis::Horizontal) => 1,
            SegmentOrientation::Corner(CornerKind::NorthEast) => 0,
            SegmentOrientation::Corner(CornerKind::NorthWest) => 1,
            SegmentOrientation::Corner(CornerKind::SouthWest) => 2,
            SegmentOrientation::Corner(CornerKind::SouthEast) => 3,
        }
    }
}

/// Whether the body can be oriented.
pub fn can_orient(snake: &Snake) -> (able: bool)
    ensures
        able == orientable(snake@),
{
    let n = snake.segments.len();
    if n < 2 {
        return false;
    }
    let mut i: usize = 0;
    while i < n - 1
        invariant
            n == snake@.len(),
            n >= 2,
            i <= n - 1,
            forall|k: int| 0 <= k < i ==> (#[trigger] snake@[k]).adjacent(snake@[k + 1]),
            forall|k: int| 0 < k < i ==> #[trigger] unfolded_at(snake@, k),
        decreases n - i,
    {
        if !snake.segments[i].is_adjacent(&snake.segments[i + 1]) {
            return false;
        }
        if i > 0 && snake.segments[i - 1] == snake.segments[i + 1] {
            assert(!unfolded_at(snake@, i as int));
            return false;
        }
        i += 1;
    }
    true
}

/// The orientation of every segment of the body, if it can be oriented.
pub fn try_orientations(snake: &Snake) -> (all: Option<Vec<SegmentOrientation>>)
    ensures
        all is Some <==> orientable(snake@),
        all matches Some(found) ==> found@ == spec_orientations(snake@),
{
    if can_orient(snake) {
        Some(orientations(snake))
    } else {
        None
    }
}

/// The orientation of every segment of the body, head first: the head and
/// the tail point away from their one neighbour, and each segment between
/// them is straight or a corner by the sides on which its two neighbours lie.
pub fn orientations(snake: &Snake) -> (all: Vec<SegmentOrientation>)
    requires
        orientable(snake@),
    ensures
        all@ == spec_orientations(snake@),
{
    let n = snake.segments.len();
    let mut all: Vec<SegmentOrientation> = Vec::new();
    let mut i: usize = 0;
    while i < n
        invariant
            n == snake@.len(),
            orientable(snake@),
            i <= n,
            all@.len() == i,
            forall|k: int| 0 <= k < i ==> #[trigger] all@[k] == orientation_at(snake@, k),
        decreases n - i,
    {
        let here = snake.segments[i];
        let orientation = if i == 0 {
            let neck = snake.segments[1];
            assert(snake@[0].adjacent(snake@[1]));
            SegmentOrientation::HeadFacing(Direction::toward(here.detect_side(&neck).opposite()))
        } else if i == n - 1 {
            let before = snake.segments[i - 1];
            proof {
                lemma_adjacent_is_mutual(snake@[i - 1], snake@[i as int]);
            }
            SegmentOrientation::TailFacing(
                Direction::toward(here.detect_side(&before).opposite()),
            )
        } else {
            let before = snake.segments[i - 1];
            let after = snake.segments[i + 1];
            proof {
                lemma_adjacent_is_mutual(snake@[i - 1], snake@[i as int]);
                assert(snake@[i as int].adjacent(snake@[i + 1]));
                assert(unfolded_at(snake@, i as int));
                lemma_sides_differ(snake@[i as int], snake@[i - 1], snake@[i + 1]);
            }
            SegmentOrientation::between(here.detect_side(&before), here.detect_side(&after))
        };
        all.push(orientation);
        i += 1;
    }
    assert(all@ =~= spec_orientations(snake@));
    all
}

/// If one cell is an orthogonal neighbour of another, so is the other of it.
pub proof fn lemma_adjacent_is_mutual(a: Position, b: Position)
    requires
        a.adjacent(b),
    ensures
        b.adjacent(a),
{
    let side = choose|side: RelativePosition| b.is_neighbor(a, side);
    lemma_side_is_unique(a, b, side);
}

/// Two different neighbours of a cell lie on different sides of it.
pub proof fn lemma_sides_differ(cell: Position, a: Position, b: Position)
    requires
        cell.adjacent(a),
        cell.adjacent(b),
        a != b,
    ensures
        cell.side_of(a) != cell.side_of(b),
{
    let side_a = choose|side: RelativePosition| a.is_neighbor(cell, side);
    let side_b = choose|side: RelativePosition| b.is_neighbor(cell, side);
    lemma_side_is_unique(cell, a, side_a);
    lemma_side_is_unique(cell, b, side_b);
}

/// A segment between two neighbours on different sides is straight, along
/// the axis of both sides, where the sides are opposite, and else the one
/// corner that joins both sides. Which neighbour comes first does not matter.
pub proof fn lemma_between_connects(a: RelativePosition, b: RelativePosition)
    requires
        a != b,
    ensures
        spec_between(a, b) == spec_between(b, a),
        a == b.spec_opposite() ==> exists|axis: Axis|
            spec_between(a, b) == SegmentOrientation::Straight(axis) && axis.along(a) && axis.along(
                b,
            ),
        a != b.spec_opposite() ==> exists|kind: CornerKind|
            spec_between(a, b) == SegmentOrientation::Corner(kind) && kind.joins(a) && kind.joins(b),
        forall|kind: CornerKind|
            kind.joins(a) && kind.joins(b) && a != b.spec_opposite() ==> spec_between(a, b)
                == SegmentOrientation::Corner(kind),
{
    if a == b.spec_opposite() {
        let axis = if Axis::Vertical.along(a) {
            Axis::Vertical
        } else {
            Axis::Horizontal
        };
        assert(spec_between(a, b) == SegmentOrientation::Straight(axis) && axis.along(a)
            && axis.along(b));
    } else {
        let kind = spec_between(a, b)->Corner_0;
        assert(spec_between(a, b) == SegmentOrientation::Corner(kind) && kind.joins(a)
            && kind.joins(b));
    }
}

/// The rotation of a segment turns its unrotated artwork into place: a head
/// or tail that points north then points where the segment faces, a straight
/// segment that runs north to south then runs along the segment's axis, and
/// a corner that joins north and east then joins the segment's two sides.
pub proof fn lemma_rotation_fits(orientation: SegmentOrientation)
    ensures
        0 <= orientation.spec_quarter_turns() < 4,
        match orientation {
            SegmentOrientation::HeadFacing(direction) => turned(
                RelativePosition::North,
                orientation.spec_quarter_turns(),
            ) == direction.spec_side(),
            SegmentOrientation::TailFacing(direction) => turned(
                RelativePosition::North,
                orientation.spec_quarter_turns(),
            ) == direction.spec_side(),
            SegmentOrientation::Straight(axis) => axis.along(
                turned(RelativePosition::North, orientation.spec_quarter_turns()),
            ),
            SegmentOrientation::Corner(kind) => kind.joins(
                turned(RelativePosition::North, orientation.spec_quarter_turns()),
            ) && kind.joins(turned(RelativePosition::East, orientation.spec_quarter_turns())),
        },
{
    reveal_with_fuel(turned, 5);
}

/// In a body of three cells in one row or one column, the middle segment is
/// straight along that row or column, and the head and the tail each point
/// away from the middle.
pub proof fn lemma_straight_body(body: Seq<Position>)
    requires
        body.len() == 3,
        orientable(body),
        (body[0].y == body[1].y && body[1].y == body[2].y) || (body[0].x == body[1].x && body[1].x
            == body[2].x),
    ensures
        orientation_at(body, 1) == SegmentOrientation::Straight(
            if body[0].y == body[2].y {
                Axis::Horizontal
            } else {
                Axis::Vertical
            },
        ),
        orientation_at(body, 0) == SegmentOrientation::HeadFacing(
            Direction::spec_toward(body[1].side_of(body[0])),
        ),
        orientation_at(body, 2) == SegmentOrientation::TailFacing(
            Direction::spec_toward(body[1].side_of(body[2])),
        ),
        body[1].side_of(body[0]) == body[1].side_of(body[2]).spec_opposite(),
{
    lemma_neighbors(body);
}

/// In a body of three cells that lie neither in one row nor in one column,
/// the middle segment is a corner: the one that joins the side on which the
/// head lies and the side on which the tail lies.
pub proof fn lemma_bent_body(body: Seq<Position>)
    requires
        body.len() == 3,
        orientable(body),
        !(body[0].y == body[1].y && body[1].y == body[2].y),
        !(body[0].x == body[1].x && body[1].x == body[2].x),
    ensures
        exists|kind: CornerKind|
            {
                &&& orientation_at(body, 1) == SegmentOrientation::Corner(kind)
                &&& kind.joins(body[1].side_of(body[0]))
                &&& kind.joins(body[1].side_of(body[2]))
                &&& forall|side: RelativePosition|
                    kind.joins(side) ==> side == body[1].side_of(body[0]) || side
                        == body[1].side_of(body[2])
            },
        orientation_at(body, 0) == SegmentOrientation::HeadFacing(
            Direction::spec_toward(body[1].side_of(body[0])),
        ),
        orientation_at(body, 2) == SegmentOrientation::TailFacing(
            Direction::spec_toward(body[1].side_of(body[2])),
        ),
{
    lemma_neighbors(body);
    let a = body[1].side_of(body[0]);
    let b = body[1].side_of(body[2]);
    lemma_between_connects(a, b);
    let kind = spec_between(a, b)->Corner_0;
    assert(orientation_at(body, 1) == SegmentOrientation::Corner(kind));
}

/// In a body of three cells that can be oriented, each end is the neighbour
/// of the middle on the side that comparing the cells finds, the middle is
/// the neighbour of each end on the opposite side, and the two ends lie on
/// different sides.
proof fn lemma_neighbors(body: Seq<Position>)
    requires
        body.len() == 3,
        orientable(body),
    ensures
        body[0].is_neighbor(body[1], body[1].side_of(body[0])),
        body[2].is_neighbor(body[1], body[1].side_of(body[2])),
        body[0].side_of(body[1]) == body[1].side_of(body[0]).spec_opposite(),
        body[2].side_of(body[1]) == body[1].side_of(body[2]).spec_opposite(),
        body[1].side_of(body[0]) != body[1].side_of(body[2]),
{
    assert(body[0].adjacent(body[1]));
    assert(body[1].adjacent(body[2]));
    assert(unfolded_at(body, 1));
    lemma_adjacent_is_mutual(body[0], body[1]);
    let side_head = choose|side: RelativePosition| body[0].is_neighbor(body[1], side);
    let side_tail = choose|side: RelativePosition| body[2].is_neighbor(body[1], side);
    lemma_side_is_unique(body[1], body[0], side_head);
    lemma_side_is_unique(body[1], body[2], side_tail);
}

/// A body that covers no cell twice and whose segments are chained can be
/// oriented.
pub proof fn lemma_well_formed_is_orientable(body: Seq<Position>)
    requires
        body.len() >= 2,
        chained(body),
        body.no_duplicates(),
    ensures
        orientable(body),
{
    assert forall|i: int| 0 < i < body.len() - 1 implies #[trigger] unfolded_at(body, i) by {}
}

} // verus!
