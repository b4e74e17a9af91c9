use snake::board::Board;
use snake::controls::{user_input, ArrowKeys, Direction, DirectionGate};
use snake::game::{tick, GameOutcome, RenderDelta, Session, TerminationReason};
use snake::position::Position;
use snake::scoring::RunState;
use snake::snake::{spawn_snake, Snake};
use std::collections::VecDeque;

fn cell(x: i32, y: i32) -> Position {
    Position::new(x, y)
}

fn body(cells: &[(i32, i32)]) -> Snake {
    Snake { segments: cells.iter().map(|&(x, y)| cell(x, y)).collect::<VecDeque<_>>() }
}

fn session(size: u16, cells: &[(i32, i32)], direction: Direction, food: &[(i32, i32)]) -> Session {
    Session {
        board: Board::new(size),
        snake: body(cells),
        gate: DirectionGate { direction },
        food: food.iter().map(|&(x, y)| cell(x, y)).collect(),
        ended: None,
    }
}

fn cells_of(snake: &Snake) -> Vec<Position> {
    snake.segments.iter().copied().collect()
}

#[test]
fn eating_food_grows_the_snake() {
    let mut game = session(4, &[(1, 1), (0, 1)], Direction::Right, &[(2, 1)]);
    let report = tick(&mut game);
    assert_eq!(report.outcome, GameOutcome::Grew);
    assert_eq!(cells_of(&game.snake), vec![cell(2, 1), cell(1, 1), cell(0, 1)]);
    assert!(game.food.is_empty());
    assert_eq!(
        report.deltas,
        vec![RenderDelta::SegmentAdded(cell(2, 1)), RenderDelta::FoodRemoved(cell(2, 1))]
    );
    assert_eq!(game.ended, None);
}

#[test]
fn running_into_the_right_wall_ends_the_game() {
    let mut game = session(4, &[(3, 1), (2, 1)], Direction::Right, &[]);
    let report = tick(&mut game);
    assert_eq!(report.outcome, GameOutcome::Terminated(TerminationReason::HitWall));
    assert_eq!(cells_of(&game.snake), vec![cell(3, 1), cell(2, 1)]);
    assert!(report.deltas.is_empty());
    assert_eq!(game.ended, Some(TerminationReason::HitWall));
}

#[test]
fn every_wall_ends_the_game() {
    let cases = [
        (&[(0, 1), (1, 1)], Direction::Left),
        (&[(3, 1), (2, 1)], Direction::Right),
        (&[(1, 0), (1, 1)], Direction::Down),
        (&[(1, 3), (1, 2)], Direction::Up),
    ];
    for (cells, direction) in cases {
        let mut game = session(4, cells, direction, &[(2, 2)]);
        let report = tick(&mut game);
        assert_eq!(report.outcome, GameOutcome::Terminated(TerminationReason::HitWall));
        assert_eq!(game.food, vec![cell(2, 2)]);
    }
}

#[test]
fn a_free_step_moves_the_snake() {
    let mut game = session(4, &[(1, 1), (0, 1)], Direction::Up, &[(3, 3)]);
    let report = tick(&mut game);
    assert_eq!(report.outcome, GameOutcome::Continue);
    assert_eq!(cells_of(&game.snake), vec![cell(1, 2), cell(1, 1)]);
    assert!(!game.snake.contains(&cell(0, 1)));
    assert_eq!(game.food, vec![cell(3, 3)]);
    assert_eq!(
        report.deltas,
        vec![RenderDelta::SegmentAdded(cell(1, 2)), RenderDelta::SegmentRemoved(cell(0, 1))]
    );
}

#[test]
fn a_free_step_works_in_every_direction_on_the_smallest_board() {
    let cases = [
        (&[(0, 0), (1, 0)], Direction::Up, (0, 1)),
        (&[(0, 1), (1, 1)], Direction::Down, (0, 0)),
        (&[(1, 0), (1, 1)], Direction::Left, (0, 0)),
        (&[(0, 0), (0, 1)], Direction::Right, (1, 0)),
    ];
    for (cells, direction, (x, y)) in cases {
        let mut game = session(2, cells, direction, &[]);
        let old_head = game.snake.head();
        let report = tick(&mut game);
        assert_eq!(report.outcome, GameOutcome::Continue);
        assert_eq!(cells_of(&game.snake), vec![cell(x, y), old_head]);
    }
}

#[test]
fn running_into_the_body_ends_the_game() {
    let mut game =
        session(4, &[(1, 1), (1, 2), (2, 2), (2, 1), (2, 0)], Direction::Right, &[(0, 0)]);
    let report = tick(&mut game);
    assert_eq!(report.outcome, GameOutcome::Terminated(TerminationReason::HitSelf));
    assert_eq!(game.snake.len(), 5);
    assert_eq!(game.food, vec![cell(0, 0)]);
}

#[test]
fn the_cell_of_the_tail_counts_as_body() {
    let mut game = session(2, &[(0, 0), (1, 0), (1, 1), (0, 1)], Direction::Up, &[]);
    let report = tick(&mut game);
    assert_eq!(report.outcome, GameOutcome::Terminated(TerminationReason::HitSelf));
}

#[test]
fn the_wall_is_looked_at_before_the_full_board() {
    let mut game = session(2, &[(0, 0), (1, 0), (1, 1), (0, 1)], Direction::Left, &[]);
    let report = tick(&mut game);
    assert_eq!(report.outcome, GameOutcome::Terminated(TerminationReason::HitWall));
}

#[test]
fn a_body_as_long_as_the_board_is_filled() {
    let mut game = session(2, &[(0, 0), (0, 0), (0, 0), (0, 0)], Direction::Right, &[(1, 0)]);
    let report = tick(&mut game);
    assert_eq!(report.outcome, GameOutcome::Terminated(TerminationReason::Filled));
    assert_eq!(game.snake.len(), 4);
    assert_eq!(game.food, vec![cell(1, 0)]);
    assert_eq!(game.ended, Some(TerminationReason::Filled));
}

#[test]
fn a_finished_game_stays_finished() {
    let mut game = session(4, &[(3, 1), (2, 1)], Direction::Right, &[]);
    tick(&mut game);
    game.gate.direction = Direction::Up;
    let report = tick(&mut game);
    assert_eq!(report.outcome, GameOutcome::Terminated(TerminationReason::HitWall));
    assert_eq!(cells_of(&game.snake), vec![cell(3, 1), cell(2, 1)]);
    assert!(report.deltas.is_empty());
    game.reset();
    assert_eq!(game.ended, None);
    assert_eq!(cells_of(&game.snake), vec![cell(4, 4), cell(3, 4)]);
    assert_eq!(game.gate.current(), Direction::Right);
    assert!(game.food.is_empty());
    assert_eq!(game.board, Board::new(4));
}

#[test]
fn the_run_state_follows_the_end_of_the_game() {
    let mut game = session(4, &[(2, 1), (1, 1)], Direction::Right, &[]);
    assert_eq!(game.run_state(), RunState::Playing);
    tick(&mut game);
    assert_eq!(game.run_state(), RunState::Playing);
    tick(&mut game);
    assert_eq!(game.run_state(), RunState::GameOver);
    game.reset();
    assert_eq!(game.run_state(), RunState::Playing);
}

#[test]
fn a_new_game_starts_with_two_cells_heading_right() {
    let mut game = Session::new(Board::new(20));
    assert_eq!(cells_of(&game.snake), vec![cell(4, 4), cell(3, 4)]);
    assert_eq!(cells_of(&spawn_snake()), vec![cell(4, 4), cell(3, 4)]);
    assert_eq!(game.gate.current(), Direction::Right);
    assert_eq!(game.ended, None);
    let report = tick(&mut game);
    assert_eq!(report.outcome, GameOutcome::Continue);
    assert_eq!(cells_of(&game.snake), vec![cell(5, 4), cell(4, 4)]);
}

#[test]
fn only_one_of_two_foods_is_eaten() {
    let mut game = session(4, &[(1, 1), (0, 1)], Direction::Right, &[(3, 3), (2, 1), (0, 0)]);
    let report = tick(&mut game);
    assert_eq!(report.outcome, GameOutcome::Grew);
    assert_eq!(game.food, vec![cell(3, 3), cell(0, 0)]);
}

#[test]
fn the_direction_gate_refuses_the_way_into_the_neck() {
    let snake = body(&[(2, 2), (1, 2)]);
    let mut gate = DirectionGate::new();
    assert_eq!(gate.current(), Direction::Right);
    gate.set(Direction::Left, &snake);
    assert_eq!(gate.current(), Direction::Right);
    gate.set(Direction::Up, &snake);
    assert_eq!(gate.current(), Direction::Up);
    gate.set(Direction::Left, &snake);
    assert_eq!(gate.current(), Direction::Up);
    gate.set(Direction::Down, &snake);
    assert_eq!(gate.current(), Direction::Down);
    gate.set(Direction::Right, &snake);
    assert_eq!(gate.current(), Direction::Right);
}

#[test]
fn the_direction_gate_refuses_each_direction_when_the_neck_lies_there() {
    let cases = [
        ((2, 3), Direction::Up),
        ((2, 1), Direction::Down),
        ((1, 2), Direction::Left),
        ((3, 2), Direction::Right),
    ];
    for (neck, blocked) in cases {
        let snake = body(&[(2, 2), neck]);
        for requested in [Direction::Up, Direction::Down, Direction::Left, Direction::Right] {
            let mut gate = DirectionGate { direction: blocked.opposite() };
            gate.set(requested, &snake);
            if requested == blocked {
                assert_eq!(gate.current(), blocked.opposite());
            } else {
                assert_eq!(gate.current(), requested);
            }
        }
    }
}

#[test]
fn the_direction_gate_takes_anything_without_a_neck() {
    let snake = body(&[(0, 0)]);
    let mut gate = DirectionGate::default();
    gate.set(Direction::Left, &snake);
    assert_eq!(gate.current(), Direction::Left);
}

#[test]
fn steering_goes_through_the_gate() {
    let mut game = session(4, &[(1, 1), (0, 1)], Direction::Right, &[]);
    game.steer(Direction::Left);
    assert_eq!(game.gate.current(), Direction::Right);
    game.steer(Direction::Down);
    assert_eq!(game.gate.current(), Direction::Down);
    let report = tick(&mut game);
    assert_eq!(report.outcome, GameOutcome::Continue);
    assert_eq!(cells_of(&game.snake), vec![cell(1, 0), cell(1, 1)]);
}

#[test]
fn directions_and_sides_match() {
    assert_eq!(Direction::default(), Direction::Right);
    assert_eq!(Direction::Up.unit_vector(), cell(0, 1));
    assert_eq!(Direction::Down.unit_vector(), cell(0, -1));
    assert_eq!(Direction::Left.unit_vector(), cell(-1, 0));
    assert_eq!(Direction::Right.unit_vector(), cell(1, 0));
    for direction in [Direction::Up, Direction::Down, Direction::Left, Direction::Right] {
        assert_eq!(Direction::toward(direction.side()), direction);
        assert_eq!(direction.opposite().opposite(), direction);
        assert_eq!(direction.opposite().side(), direction.side().opposite());
        assert_ne!(direction.opposite(), direction);
    }
}

#[test]
fn a_head_at_the_edge_of_the_number_range_hits_the_wall() {
    let mut game = session(4, &[(i32::MAX, 1), (i32::MAX - 1, 1)], Direction::Right, &[]);
    let report = tick(&mut game);
    assert_eq!(report.outcome, GameOutcome::Terminated(TerminationReason::HitWall));
}

#[test]
fn snake_accessors_read_the_body() {
    let snake = body(&[(2, 2), (1, 2), (1, 1)]);
    assert_eq!(snake.len(), 3);
    assert_eq!(snake.head(), cell(2, 2));
    assert_eq!(snake.neck(), Some(cell(1, 2)));
    assert_eq!(snake.tail(), cell(1, 1));
    assert!(snake.contains(&cell(1, 1)));
    assert!(!snake.contains(&cell(0, 0)));
    assert_eq!(snake.cells(), vec![cell(2, 2), cell(1, 2), cell(1, 1)]);
    assert_eq!(body(&[(0, 0)]).neck(), None);
    assert_eq!(Snake::default().len(), 0);
}

fn keys(up: bool, down: bool, left: bool, right: bool) -> ArrowKeys {
    ArrowKeys { up, down, left, right }
}

#[test]
fn the_first_held_key_decides() {
    let snake = body(&[(2, 2), (1, 2)]);
    let mut gate = DirectionGate::new();
    user_input(&keys(false, false, false, false), &snake, &mut gate);
    assert_eq!(gate.current(), Direction::Right);
    user_input(&keys(true, true, true, true), &snake, &mut gate);
    assert_eq!(gate.current(), Direction::Up);
    user_input(&keys(false, true, true, true), &snake, &mut gate);
    assert_eq!(gate.current(), Direction::Down);
    user_input(&keys(false, false, false, true), &snake, &mut gate);
    assert_eq!(gate.current(), Direction::Right);
}

#[test]
fn a_held_key_into_the_neck_changes_nothing() {
    let snake = body(&[(2, 2), (1, 2)]);
    let mut gate = DirectionGate { direction: Direction::Up };
    user_input(&keys(false, false, true, true), &snake, &mut gate);
    assert_eq!(gate.current(), Direction::Up);
    user_input(&keys(false, false, false, true), &snake, &mut gate);
    assert_eq!(gate.current(), Direction::Right);
}
