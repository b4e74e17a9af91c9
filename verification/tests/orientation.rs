use snake::controls::Direction;
use snake::orientation::{orientations, Axis, CornerKind, SegmentOrientation};
use snake::position::{Position, RelativePosition};
use snake::snake::Snake;
use std::collections::VecDeque;

fn snake_on(cells: &[(i32, i32)]) -> Snake {
    Snake { segments: cells.iter().map(|&(x, y)| Position::new(x, y)).collect::<VecDeque<_>>() }
}

#[test]
fn sides_are_found_rows_first() {
    let origin = Position::new(5, 5);
    assert_eq!(origin.detect_side(&Position::new(5, 6)), RelativePosition::North);
    assert_eq!(origin.detect_side(&Position::new(5, 4)), RelativePosition::South);
    assert_eq!(origin.detect_side(&Position::new(6, 5)), RelativePosition::East);
    assert_eq!(origin.detect_side(&Position::new(4, 5)), RelativePosition::West);
}

#[test]
fn sides_have_opposites_and_rotations() {
    assert_eq!(RelativePosition::North.opposite(), RelativePosition::South);
    assert_eq!(RelativePosition::South.opposite(), RelativePosition::North);
    assert_eq!(RelativePosition::East.opposite(), RelativePosition::West);
    assert_eq!(RelativePosition::West.opposite(), RelativePosition::East);
    assert_eq!(RelativePosition::North.quarter_turns(), 0);
    assert_eq!(RelativePosition::West.quarter_turns(), 1);
    assert_eq!(RelativePosition::South.quarter_turns(), 2);
    assert_eq!(RelativePosition::East.quarter_turns(), 3);
}

#[test]
fn a_body_in_a_row_is_straight_and_horizontal() {
    let all = orientations(&snake_on(&[(3, 1), (2, 1), (1, 1)]));
    assert_eq!(
        all,
        vec![
            SegmentOrientation::HeadFacing(Direction::Right),
            SegmentOrientation::Straight(Axis::Horizontal),
            SegmentOrientation::TailFacing(Direction::Left),
        ]
    );
    let back = orientations(&snake_on(&[(1, 1), (2, 1), (3, 1)]));
    assert_eq!(
        back,
        vec![
            SegmentOrientation::HeadFacing(Direction::Left),
            SegmentOrientation::Straight(Axis::Horizontal),
            SegmentOrientation::TailFacing(Direction::Right),
        ]
    );
}

#[test]
fn a_body_in_a_column_is_straight_and_vertical() {
    let all = orientations(&snake_on(&[(2, 3), (2, 2), (2, 1)]));
    assert_eq!(
        all,
        vec![
            SegmentOrientation::HeadFacing(Direction::Up),
            SegmentOrientation::Straight(Axis::Vertical),
            SegmentOrientation::TailFacing(Direction::Down),
        ]
    );
    let down = orientations(&snake_on(&[(2, 1), (2, 2), (2, 3)]));
    assert_eq!(
        down,
        vec![
            SegmentOrientation::HeadFacing(Direction::Down),
            SegmentOrientation::Straight(Axis::Vertical),
            SegmentOrientation::TailFacing(Direction::Up),
        ]
    );
}

#[test]
fn a_bent_body_has_the_corner_of_its_turn() {
    let all = orientations(&snake_on(&[(0, 0), (0, 1), (1, 1)]));
    assert_eq!(
        all,
        vec![
            SegmentOrientation::HeadFacing(Direction::Down),
            SegmentOrientation::Corner(CornerKind::SouthEast),
            SegmentOrientation::TailFacing(Direction::Right),
        ]
    );
}

#[test]
fn each_turn_has_its_own_corner() {
    let cases = [
        ([(1, 2), (1, 1), (2, 1)], CornerKind::NorthEast),
        ([(2, 1), (1, 1), (1, 2)], CornerKind::NorthEast),
        ([(1, 2), (1, 1), (0, 1)], CornerKind::NorthWest),
        ([(0, 1), (1, 1), (1, 2)], CornerKind::NorthWest),
        ([(1, 0), (1, 1), (2, 1)], CornerKind::SouthEast),
        ([(2, 1), (1, 1), (1, 0)], CornerKind::SouthEast),
        ([(1, 0), (1, 1), (0, 1)], CornerKind::SouthWest),
        ([(0, 1), (1, 1), (1, 0)], CornerKind::SouthWest),
    ];
    for (cells, kind) in cases {
        assert_eq!(orientations(&snake_on(&cells))[1], SegmentOrientation::Corner(kind));
    }
}

#[test]
fn a_body_of_two_has_a_head_and_a_tail() {
    let all = orientations(&snake_on(&[(4, 4), (3, 4)]));
    assert_eq!(
        all,
        vec![
            SegmentOrientation::HeadFacing(Direction::Right),
            SegmentOrientation::TailFacing(Direction::Left),
        ]
    );
}

#[test]
fn a_long_body_is_oriented_segment_by_segment() {
    let all = orientations(&snake_on(&[(2, 2), (2, 1), (1, 1), (0, 1), (0, 0)]));
    assert_eq!(
        all,
        vec![
            SegmentOrientation::HeadFacing(Direction::Up),
            SegmentOrientation::Corner(CornerKind::NorthWest),
            SegmentOrientation::Straight(Axis::Horizontal),
            SegmentOrientation::Corner(CornerKind::SouthEast),
            SegmentOrientation::TailFacing(Direction::Down),
        ]
    );
}

#[test]
fn the_pair_of_sides_decides_and_its_order_does_not() {
    let (north, south, east, west) = (
        RelativePosition::North,
        RelativePosition::South,
        RelativePosition::East,
        RelativePosition::West,
    );
    assert_eq!(
        SegmentOrientation::between(north, south),
        SegmentOrientation::Straight(Axis::Vertical)
    );
    assert_eq!(
        SegmentOrientation::between(west, east),
        SegmentOrientation::Straight(Axis::Horizontal)
    );
    for a in [north, south, east, west] {
        for b in [north, south, east, west] {
            if a != b {
                assert_eq!(SegmentOrientation::between(a, b), SegmentOrientation::between(b, a));
            }
        }
    }
    assert_eq!(
        SegmentOrientation::between(south, west),
        SegmentOrientation::Corner(CornerKind::SouthWest)
    );
}

#[test]
fn rotations_are_quarter_turns() {
    assert_eq!(SegmentOrientation::HeadFacing(Direction::Up).quarter_turns(), 0);
    assert_eq!(SegmentOrientation::HeadFacing(Direction::Left).quarter_turns(), 1);
    assert_eq!(SegmentOrientation::TailFacing(Direction::Down).quarter_turns(), 2);
    assert_eq!(SegmentOrientation::TailFacing(Direction::Right).quarter_turns(), 3);
    assert_eq!(SegmentOrientation::Straight(Axis::Vertical).quarter_turns(), 0);
    assert_eq!(SegmentOrientation::Straight(Axis::Horizontal).quarter_turns(), 1);
    assert_eq!(SegmentOrientation::Corner(CornerKind::NorthEast).quarter_turns(), 0);
    assert_eq!(SegmentOrientation::Corner(CornerKind::NorthWest).quarter_turns(), 1);
    assert_eq!(SegmentOrientation::Corner(CornerKind::SouthWest).quarter_turns(), 2);
    assert_eq!(SegmentOrientation::Corner(CornerKind::SouthEast).quarter_turns(), 3);
}
