//! The movement state machine: what one tick does to the snake and the food.

use crate::board::Board;
use crate::cells::all_distinct;
use crate::cells::are_disjoint;
use crate::cells::contains;
use crate::cells::disjoint;
use crate::cells::lemma_filter_keeps;
use crate::cells::other_than;
use crate::cells::without;
use crate::controls::reverses;
use crate::controls::would_reverse;
use crate::food::drawn_from;
use crate::food::free_cells;
use crate::food::spawn;
use crate::controls::Direction;
use crate::controls::DirectionGate;
use crate::position::Position;
use crate::scoring::RunState;
use crate::snake::spawn_snake;
use crate::snake::well_formed_body;
use crate::snake::Snake;
use rand::rngs::StdRng;
use vstd::prelude::*;

verus! {

/// Why a game ended.
#[derive(Debug, Clone, Copy, PartialEq, Eq, Hash, Structural)]
pub enum TerminationReason {
    /// The head would have left the board.
    HitWall,
    /// The head would have entered a cell of the body.
    HitSelf,
    /// The body covers the whole board.
    Filled,
}

/// What one tick did.
#[derive(Debug, Clone, Copy, PartialEq, Eq, Hash, Structural)]
pub enum GameOutcome {
    /// The snake moved one cell and kept its length.
    Continue,
    /// The snake moved onto food and is one cell longer.
    Grew,
    /// The game is over.
    Terminated(TerminationReason),
}

/// One change for whoever draws the game to apply.
#[derive(Debug, Clone, Copy, PartialEq, Eq, Hash, Structural)]
pub enum RenderDelta {
    SegmentAdded(Position),
    SegmentRemoved(Position),
    FoodAdded(Position),
    FoodRemoved(Position),
}

/// The outcome of a tick and the changes it made, in the order made.
#[derive(Debug, Clone)]
pub struct TickReport {
    pub outcome: GameOutcome,
    pub deltas: Vec<RenderDelta>,
}

/// Everything a game in progress consists of.
#[derive(Debug, Clone)]
pub struct Session {
    pub board: Board,
    pub snake: Snake,
    pub gate: DirectionGate,
    /// The cells that hold food; used as a set.
    pub food: Vec<Position>,
    /// `None` while the game is being played, the reason once it is over.
    pub ended: Option<TerminationReason>,
}

/// The column one step ahead of the head.
pub open spec fn next_x(body: Seq<Position>, direction: Direction) -> int {
    body[0].x + direction.dx()
}

/// The row one step ahead of the head.
pub open spec fn next_y(body: Seq<Position>, direction: Direction) -> int {
    body[0].y + direction.dy()
}

/// The step ahead of the head stays on the board.
pub open spec fn stays_on_board(body: Seq<Position>, direction: Direction, board: Board) -> bool {
    &&& 0 <= next_x(body, direction) < board.size
    &&& 0 <= next_y(body, direction) < board.size
}

/// The cell one step ahead of the head, where that step stays on the board.
pub open spec fn next_head(body: Seq<Position>, direction: Direction) -> Position {
    Position { x: next_x(body, direction) as i32, y: next_y(body, direction) as i32 }
}

/// The outcome of a tick: the wall is looked at first, then the body as it
/// is before the move, then whether the board is full, then the food.
pub open spec fn resolve(
    body: Seq<Position>,
    direction: Direction,
    board: Board,
    food: Seq<Position>,
) -> GameOutcome {
    let next = next_head(body, direction);
    if !stays_on_board(body, direction, board) {
        GameOutcome::Terminated(TerminationReason::HitWall)
    } else if body.contains(next) {
        GameOutcome::Terminated(TerminationReason::HitSelf)
    } else if body.len() == board.area() {
        GameOutcome::Terminated(TerminationReason::Filled)
    } else if food.contains(next) {
        GameOutcome::Grew
    } else {
        GameOutcome::Continue
    }
}

/// The body after a tick.
pub open spec fn body_after(
    body: Seq<Position>,
    direction: Direction,
    board: Board,
    food: Seq<Position>,
) -> Seq<Position> {
    match resolve(body, direction, board, food) {
        GameOutcome::Continue => seq![next_head(body, direction)] + body.drop_last(),
        GameOutcome::Grew => seq![next_head(body, direction)] + body,
        GameOutcome::Terminated(_) => body,
    }
}

/// The food after a tick.
pub open spec fn food_after(
    body: Seq<Position>,
    direction: Direction,
    board: Board,
    food: Seq<Position>,
) -> Seq<Position> {
    match resolve(body, direction, board, food) {
        GameOutcome::Grew => food.filter(other_than(next_head(body, direction))),
        _ => food,
    }
}

/// The changes that a tick makes, in order.
pub open spec fn deltas_after(
    body: Seq<Position>,
    direction: Direction,
    board: Board,
    food: Seq<Position>,
) -> Seq<RenderDelta> {
    let next = next_head(body, direction);
    match resolve(body, direction, board, food) {
        GameOutcome::Continue => seq![
            RenderDelta::SegmentAdded(next),
            RenderDelta::SegmentRemoved(body.last()),
        ],
        GameOutcome::Grew => seq![RenderDelta::SegmentAdded(next), RenderDelta::FoodRemoved(next)],
        GameOutcome::Terminated(_) => Seq::empty(),
    }
}

/// What holds of a game between ticks: the body is well formed, the food
/// lies on the board, on no cell twice and on no cell of the body, and the
/// committed direction does not lead into the neck.
pub open spec fn well_formed_state(
    body: Seq<Position>,
    direction: Direction,
    board: Board,
    food: Seq<Position>,
) -> bool {
    &&& well_formed_body(body, board)
    &&& food.no_duplicates()
    &&& board.holds(food)
    &&& disjoint(body, food)
    &&& !reverses(body, direction)
}

/// The cell can take food: it lies on the board, and neither the body nor
/// the food covers it.
pub open spec fn takes_food(
    cell: Position,
    body: Seq<Position>,
    board: Board,
    food: Seq<Position>,
) -> bool {
    board.spec_contains(cell) && !body.contains(cell) && !food.contains(cell)
}

/// The food after the cells were offered one by one, each added behind the
/// others if it could take food then.
pub open spec fn stocked(
    food: Seq<Position>,
    cells: Seq<Position>,
    body: Seq<Position>,
    board: Board,
) -> Seq<Position>
    decreases cells.len(),
{
    if cells.len() == 0 {
        food
    } else {
        let before = stocked(food, cells.drop_last(), body, board);
        if takes_food(cells.last(), body, board, before) {
            before.push(cells.last())
        } else {
            before
        }
    }
}

/// One `FoodAdded` for each cell, in order.
pub open spec fn food_added(cells: Seq<Position>) -> Seq<RenderDelta> {
    Seq::new(cells.len(), |i: int| RenderDelta::FoodAdded(cells[i]))
}

impl Session {
    /// The game is between two ticks as it should be.
    pub open spec fn well_formed(&self) -> bool {
        well_formed_state(self.snake@, self.gate.direction, self.board, self.food@)
    }

    /// Whether the game is well formed.
    pub fn is_well_formed(&self) -> (valid: bool)
        ensures
            valid == self.well_formed(),
    {
        if !self.snake.is_well_formed(&self.board) {
            return false;
        }
        let body = self.snake.cells();
        all_distinct(&self.food) && self.board.contains_all(&self.food) && are_disjoint(
            &body,
            &self.food,
        ) && !would_reverse(&self.snake, self.gate.current())
    }

    /// A game at its start on the given board: the starting body, the
    /// initial direction, no food, and play under way.
    pub fn new(board: Board) -> (session: Session)
        ensures
            session.board == board,
            session.snake@ == seq![Position { x: 4, y: 4 }, Position { x: 3, y: 4 }],
            session.gate.direction == Direction::Right,
            session.food@ == Seq::<Position>::empty(),
            session.ended is None,
            board.size >= 5 ==> session.well_formed(),
    {
        proof {
            if board.size >= 5 {
                crate::snake::lemma_start_is_well_formed(board);
            }
        }
        Session {
            board,
            snake: spawn_snake(),
            gate: DirectionGate::new(),
            food: Vec::new(),
            ended: None,
        }
    }

    /// Whether the game is being played or is over.
    pub fn run_state(&self) -> (state: RunState)
        ensures
            state == if self.ended is None {
                RunState::Playing
            } else {
                RunState::GameOver
            },
    {
        match self.ended {
            None => RunState::Playing,
            Some(_) => RunState::GameOver,
        }
    }

    /// Puts the game back to its start on the same board.
    pub fn reset(&mut self)
        ensures
            final(self).board == old(self).board,
            final(self).snake@ == seq![Position { x: 4, y: 4 }, Position { x: 3, y: 4 }],
            final(self).gate.direction == Direction::Right,
            final(self).food@ == Seq::<Position>::empty(),
            final(self).ended is None,
            old(self).board.size >= 5 ==> final(self).well_formed(),
    {
        proof {
            if self.board.size >= 5 {
                crate::snake::lemma_start_is_well_formed(self.board);
            }
        }
        self.snake = spawn_snake();
        self.gate = DirectionGate::new();
        self.food = Vec::new();
        self.ended = None;
    }

    /// Hands a requested direction to the direction gate, which commits to
    /// it unless it leads from the head straight into the neck.
    pub fn steer(&mut self, requested: Direction)
        requires
            old(self).snake@.len() >= 1,
        ensures
            final(self).board == old(self).board,
            final(self).snake@ == old(self).snake@,
            final(self).food@ == old(self).food@,
            final(self).ended == old(self).ended,
            final(self).gate.direction == if reverses(old(self).snake@, requested) {
                old(self).gate.direction
            } else {
                requested
            },
            old(self).well_formed() ==> final(self).well_formed(),
    {
        self.gate.set(requested, &self.snake);
    }

    /// Offers the cells to the food one by one. A cell off the board, under
    /// the body or with food on it already is passed over; each other cell
    /// gets food and a `FoodAdded`.
    pub fn place_food(&mut self, cells: &Vec<Position>) -> (deltas: Vec<RenderDelta>)
        ensures
            final(self).board == old(self).board,
            final(self).snake@ == old(self).snake@,
            final(self).gate == old(self).gate,
            final(self).ended == old(self).ended,
            final(self).food@ == stocked(
                old(self).food@,
                cells@,
                old(self).snake@,
                old(self).board,
            ),
            final(self).food@.len() >= old(self).food@.len(),
            final(self).food@.take(old(self).food@.len() as int) == old(self).food@,
            deltas@ == food_added(final(self).food@.skip(old(self).food@.len() as int)),
            old(self).well_formed() ==> final(self).well_formed(),
    {
        let ghost food = self.food@;
        let ghost body = self.snake@;
        let mut deltas: Vec<RenderDelta> = Vec::new();
        let mut i: usize = 0;
        proof {
            assert(cells@.take(0) =~= Seq::<Position>::empty());
            assert(deltas@ =~= food_added(self.food@.skip(food.len() as int)));
        }
        while i < cells.len()
            invariant
                i <= cells@.len(),
                self.board == old(self).board,
                self.snake@ == body,
                self.gate == old(self).gate,
                self.ended == old(self).ended,
                self.food@ == stocked(food, cells@.take(i as int), body, self.board),
                self.food@.len() >= food.len(),
                deltas@ == food_added(self.food@.skip(food.len() as int)),
            decreases cells@.len() - i,
        {
            let cell = cells[i];
            let ghost before = self.food@;
            proof {
                assert(cells@.take(i + 1).drop_last() =~= cells@.take(i as int));
            }
            if self.board.contains(&cell) && !self.snake.contains(&cell) && !contains(
                &self.food,
                &cell,
            ) {
                self.food.push(cell);
                deltas.push(RenderDelta::FoodAdded(cell));
                proof {
                    assert(self.food@.skip(food.len() as int) =~= before.skip(
                        food.len() as int,
                    ).push(cell));
                    assert(deltas@ =~= food_added(self.food@.skip(food.len() as int)));
                }
            }
            i += 1;
        }
        proof {
            assert(cells@.take(cells@.len() as int) =~= cells@);
            lemma_stocked(food, cells@, body, self.board);
        }
        deltas
    }
}

/// Answers `num_food` requests for new food: draws that many free cells at
/// random and puts food on them. Free are the cells of the board that neither
/// the body nor the food covers; where fewer are free than were asked for,
/// all of them get food.
pub fn food_event_listener(
    session: &mut Session,
    num_food: usize,
    rng: &mut StdRng,
) -> (deltas: Vec<RenderDelta>)
    ensures
        final(session).board == old(session).board,
        final(session).snake@ == old(session).snake@,
        final(session).gate == old(session).gate,
        final(session).ended == old(session).ended,
        final(session).food@.take(old(session).food@.len() as int) == old(session).food@,
        ({
            let free = free_cells(old(session).board, old(session).snake@ + old(session).food@);
            let added = final(session).food@.skip(old(session).food@.len() as int);
            &&& final(session).food@.len() >= old(session).food@.len()
            &&& drawn_from(added, free, num_food as nat)
            &&& added.no_duplicates()
            &&& forall|i: int|
                0 <= i < added.len() ==> takes_food(
                    #[trigger] added[i],
                    old(session).snake@,
                    old(session).board,
                    old(session).food@,
                )
            &&& num_food >= free.len() ==> added.to_set() == free.to_set()
            &&& deltas@ == food_added(added)
        }),
        old(session).well_formed() ==> final(session).well_formed(),
{
    let mut occupied = session.snake.cells();
    let mut i: usize = 0;
    while i < session.food.len()
        invariant
            i <= session.food@.len(),
            session.food@ == old(session).food@,
            occupied@ == session.snake@ + session.food@.take(i as int),
        decreases session.food@.len() - i,
    {
        occupied.push(session.food[i]);
        i += 1;
        assert(session.snake@ + session.food@.take(i as int) =~= (session.snake@
            + session.food@.take(i - 1)).push(session.food@[i - 1]));
    }
    assert(session.food@.take(session.food@.len() as int) =~= session.food@);
    let cells = spawn(num_food, &occupied, &session.board, rng);
    proof {
        let food = session.food@;
        let body = session.snake@;
        assert forall|i: int| 0 <= i < cells@.len() implies takes_food(
            #[trigger] cells@[i],
            body,
            session.board,
            food,
        ) by {
            let c = cells@[i];
            assert(!occupied@.contains(c));
            if body.contains(c) {
                let j = choose|j: int| 0 <= j < body.len() && body[j] == c;
                assert(occupied@[j] == c);
            }
            if food.contains(c) {
                let j = choose|j: int| 0 <= j < food.len() && food[j] == c;
                assert(occupied@[body.len() + j] == c);
            }
        }
        lemma_stocked_all(food, cells@, body, session.board);
        assert((food + cells@).skip(food.len() as int) =~= cells@);
    }
    session.place_food(&cells)
}

/// Offering cells keeps the food that was there in front, lists no cell
/// twice that was not listed twice, and puts food only on free cells of the
/// board.
pub proof fn lemma_stocked(
    food: Seq<Position>,
    cells: Seq<Position>,
    body: Seq<Position>,
    board: Board,
)
    ensures
        stocked(food, cells, body, board).len() >= food.len(),
        stocked(food, cells, body, board).take(food.len() as int) == food,
        food.no_duplicates() ==> stocked(food, cells, body, board).no_duplicates(),
        board.holds(food) ==> board.holds(stocked(food, cells, body, board)),
        disjoint(body, food) ==> disjoint(body, stocked(food, cells, body, board)),
    decreases cells.len(),
{
    let after = stocked(food, cells, body, board);
    if cells.len() == 0 {
        assert(food.take(food.len() as int) =~= food);
    } else {
        let before = stocked(food, cells.drop_last(), body, board);
        lemma_stocked(food, cells.drop_last(), body, board);
        assert(after.take(food.len() as int) =~= before.take(food.len() as int));
        if takes_food(cells.last(), body, board, before) {
            if board.holds(food) {
                assert forall|i: int| 0 <= i < after.len() implies board.spec_contains(
                    #[trigger] after[i],
                ) by {
                    if i < before.len() {
                        assert(board.spec_contains(before[i]));
                    }
                }
            }
            if disjoint(body, food) {
                assert forall|c: Position| !(body.contains(c) && after.contains(c)) by {
                    if after.contains(c) && c != cells.last() {
                        let i = choose|i: int| 0 <= i < after.len() && after[i] == c;
                        assert(before[i] == c);
                        assert(before.contains(c));
                    }
                }
            }
        }
    }
}

/// Where every offered cell is free and none is offered twice, all of them
/// get food, in the order offered.
pub proof fn lemma_stocked_all(
    food: Seq<Position>,
    cells: Seq<Position>,
    body: Seq<Position>,
    board: Board,
)
    requires
        cells.no_duplicates(),
        forall|i: int| 0 <= i < cells.len() ==> takes_food(#[trigger] cells[i], body, board, food),
    ensures
        stocked(food, cells, body, board) == food + cells,
    decreases cells.len(),
{
    if cells.len() == 0 {
        assert(food + cells =~= food);
    } else {
        let front = cells.drop_last();
        let before = stocked(food, front, body, board);
        lemma_stocked_all(food, front, body, board);
        assert(takes_food(cells[cells.len() - 1], body, board, food));
        if before.contains(cells.last()) {
            let i = choose|i: int| 0 <= i < before.len() && before[i] == cells.last();
            if i < food.len() {
                assert(food[i] == cells.last());
                assert(food.contains(cells.last()));
            } else {
                assert(cells[i - food.len()] == cells[cells.len() - 1]);
            }
        }
        assert(before.push(cells.last()) =~= food + cells);
    }
}

/// Advances the game by one tick. A game that is over stays over and is not
/// changed. Otherwise the head moves one step in the committed direction:
/// into the wall, into the body or on a full board the game ends; onto food
/// the snake grows and the food is gone; else the tail follows.
pub fn tick(session: &mut Session) -> (report: TickReport)
    requires
        old(session).snake@.len() >= 1,
        old(session).board.size >= 1,
    ensures
        final(session).board == old(session).board,
        final(session).gate == old(session).gate,
        old(session).ended matches Some(reason) ==> {
            &&& report.outcome == GameOutcome::Terminated(reason)
            &&& report.deltas@ == Seq::<RenderDelta>::empty()
            &&& final(session).ended == old(session).ended
            &&& final(session).snake@ == old(session).snake@
            &&& final(session).food@ == old(session).food@
        },
        old(session).ended is None ==> {
            let body = old(session).snake@;
            let direction = old(session).gate.direction;
            let board = old(session).board;
            let food = old(session).food@;
            &&& report.outcome == resolve(body, direction, board, food)
            &&& report.deltas@ == deltas_after(body, direction, board, food)
            &&& final(session).snake@ == body_after(body, direction, board, food)
            &&& final(session).food@ == food_after(body, direction, board, food)
            &&& final(session).ended == match report.outcome {
                GameOutcome::Terminated(reason) => Some(reason),
                _ => None,
            }
        },
        old(session).well_formed() ==> final(session).well_formed(),
{
    if let Some(reason) = session.ended {
        return TickReport { outcome: GameOutcome::Terminated(reason), deltas: Vec::new() };
    }
    let ghost body = session.snake@;
    let ghost food = session.food@;
    let ghost direction = session.gate.direction;
    let head = session.snake.head();
    let step = session.gate.current().unit_vector();
    let x: i64 = head.x as i64 + step.x as i64;
    let y: i64 = head.y as i64 + step.y as i64;
    let size: i64 = session.board.size as i64;
    if x < 0 || x >= size || y < 0 || y >= size {
        session.ended = Some(TerminationReason::HitWall);
        return TickReport {
            outcome: GameOutcome::Terminated(TerminationReason::HitWall),
            deltas: Vec::new(),
        };
    }
    let next = Position::new(x as i32, y as i32);
    assert(next == next_head(body, direction));
    if session.snake.contains(&next) {
        session.ended = Some(TerminationReason::HitSelf);
        return TickReport {
            outcome: GameOutcome::Terminated(TerminationReason::HitSelf),
            deltas: Vec::new(),
        };
    }
    assert(session.board.size * session.board.size <= 0xffff * 0xffff) by (nonlinear_arith)
        requires
            0 <= session.board.size <= 0xffff,
    ;
    let area: u64 = (session.board.size as u64) * (session.board.size as u64);
    if session.snake.len() as u64 == area {
        session.ended = Some(TerminationReason::Filled);
        return TickReport {
            outcome: GameOutcome::Terminated(TerminationReason::Filled),
            deltas: Vec::new(),
        };
    }
    let mut deltas: Vec<RenderDelta> = Vec::new();
    deltas.push(RenderDelta::SegmentAdded(next));
    if contains(&session.food, &next) {
        session.snake.grow(next);
        session.food = without(&session.food, &next);
        deltas.push(RenderDelta::FoodRemoved(next));
        proof {
            assert(deltas@ =~= deltas_after(body, direction, session.board, food));
            if well_formed_state(body, direction, session.board, food) {
                lemma_tick_keeps_well_formed(body, direction, session.board, food);
            }
        }
        TickReport { outcome: GameOutcome::Grew, deltas }
    } else {
        let tail = session.snake.slide(next);
        deltas.push(RenderDelta::SegmentRemoved(tail));
        proof {
            assert(deltas@ =~= deltas_after(body, direction, session.board, food));
            if well_formed_state(body, direction, session.board, food) {
                lemma_tick_keeps_well_formed(body, direction, session.board, food);
            }
        }
        TickReport { outcome: GameOutcome::Continue, deltas }
    }
}

/// A tick takes a well-formed game to a well-formed game.
pub proof fn lemma_tick_keeps_well_formed(
    body: Seq<Position>,
    direction: Direction,
    board: Board,
    food: Seq<Position>,
)
    requires
        well_formed_state(body, direction, board, food),
    ensures
        well_formed_state(
            body_after(body, direction, board, food),
            direction,
            board,
            food_after(body, direction, board, food),
        ),
{
    let next = next_head(body, direction);
    let after = body_after(body, direction, board, food);
    let rest = food_after(body, direction, board, food);
    match resolve(body, direction, board, food) {
        GameOutcome::Terminated(_) => {},
        GameOutcome::Continue => {
            lemma_moved_body(body, direction, board, body.drop_last());
            assert forall|c: Position| !(after.contains(c) && rest.contains(c)) by {
                if after.contains(c) && c != next {
                    let i = choose|i: int| 0 <= i < after.len() && after[i] == c;
                    assert(body[i - 1] == c);
                    assert(body.contains(c));
                }
            }
        },
        GameOutcome::Grew => {
            lemma_moved_body(body, direction, board, body);
            lemma_filter_keeps(food, other_than(next));
            assert forall|i: int| 0 <= i < rest.len() implies board.spec_contains(
                #[trigger] rest[i],
            ) by {
                assert(rest.contains(rest[i]));
                let j = choose|j: int| 0 <= j < food.len() && food[j] == rest[i];
            }
            assert forall|c: Position| !(after.contains(c) && rest.contains(c)) by {
                if after.contains(c) && c != next {
                    let i = choose|i: int| 0 <= i < after.len() && after[i] == c;
                    assert(body[i - 1] == c);
                    assert(body.contains(c));
                }
            }
        },
    }
}

/// A step that stays on the board and leads neither into the body nor onto
/// food makes the snake move on: the outcome is `Continue`, the next head
/// stands in front of the body without its tail, the length is the same, and
/// the cell of the old tail is no longer covered.
pub proof fn lemma_free_step_continues(
    body: Seq<Position>,
    direction: Direction,
    board: Board,
    food: Seq<Position>,
)
    requires
        well_formed_state(body, direction, board, food),
        stays_on_board(body, direction, board),
        !body.contains(next_head(body, direction)),
        !food.contains(next_head(body, direction)),
    ensures
        board.size >= 2,
        resolve(body, direction, board, food) == GameOutcome::Continue,
        body_after(body, direction, board, food) == seq![next_head(body, direction)]
            + body.drop_last(),
        body_after(body, direction, board, food).len() == body.len(),
        !body_after(body, direction, board, food).contains(body.last()),
        food_after(body, direction, board, food) == food,
{
    let next = next_head(body, direction);
    let after = seq![next] + body.drop_last();
    crate::board::lemma_free_cell_leaves_room(board, body, next);
    assert(board.size >= 2) by (nonlinear_arith)
        requires
            2 <= body.len() < board.size * board.size,
    ;
    assert(body.contains(body.last()));
    if after.contains(body.last()) {
        let i = choose|i: int| 0 <= i < after.len() && after[i] == body.last();
        assert(body[i - 1] == body[body.len() - 1]);
    }
}

/// A step onto food makes the snake grow: the outcome is `Grew`, the next
/// head stands in front of the whole body, which is one cell longer, and the
/// food no longer lists the cell.
pub proof fn lemma_food_step_grows(
    body: Seq<Position>,
    direction: Direction,
    board: Board,
    food: Seq<Position>,
)
    requires
        well_formed_state(body, direction, board, food),
        food.contains(next_head(body, direction)),
    ensures
        stays_on_board(body, direction, board),
        resolve(body, direction, board, food) == GameOutcome::Grew,
        body_after(body, direction, board, food) == seq![next_head(body, direction)] + body,
        body_after(body, direction, board, food).len() == body.len() + 1,
        !food_after(body, direction, board, food).contains(next_head(body, direction)),
        forall|c: Position|
            c != next_head(body, direction) ==> (#[trigger] food_after(
                body,
                direction,
                board,
                food,
            ).contains(c) <==> food.contains(c)),
        food_after(body, direction, board, food).len() == food.len() - 1,
{
    let next = next_head(body, direction);
    let rest = food.filter(other_than(next));
    let i = choose|i: int| 0 <= i < food.len() && food[i] == next;
    assert(board.spec_contains(food[i]));
    assert(board.spec_contains(body[0]));
    crate::board::lemma_free_cell_leaves_room(board, body, next);
    lemma_filter_keeps(food, other_than(next));
    assert(rest.len() == food.len() - 1) by {
        rest.unique_seq_to_set();
        food.unique_seq_to_set();
        assert(rest.to_set() =~= food.to_set().remove(next));
        vstd::seq_lib::seq_to_set_is_finite(food);
    }
}

/// A step off the board ends the game with `HitWall`, whatever the body and
/// the food are: so does every step whose column or row is `-1` or the
/// board's size.
pub proof fn lemma_wall_step_terminates(
    body: Seq<Position>,
    direction: Direction,
    board: Board,
    food: Seq<Position>,
)
    requires
        body.len() >= 1,
        !stays_on_board(body, direction, board),
    ensures
        resolve(body, direction, board, food) == GameOutcome::Terminated(
            TerminationReason::HitWall,
        ),
        body_after(body, direction, board, food) == body,
        food_after(body, direction, board, food) == food,
{
}

/// A step that stays on the board and leads into a cell that the body covers
/// before the move, the tail's included, ends the game with `HitSelf`.
pub proof fn lemma_body_step_terminates(
    body: Seq<Position>,
    direction: Direction,
    board: Board,
    food: Seq<Position>,
)
    requires
        body.len() >= 1,
        stays_on_board(body, direction, board),
        body.contains(next_head(body, direction)),
    ensures
        resolve(body, direction, board, food) == GameOutcome::Terminated(
            TerminationReason::HitSelf,
        ),
        body_after(body, direction, board, food) == body,
        food_after(body, direction, board, food) == food,
{
}

/// A body as long as the board has cells ends the game with `Filled` on a
/// step that neither the wall nor the body stops.
pub proof fn lemma_full_board_terminates(
    body: Seq<Position>,
    direction: Direction,
    board: Board,
    food: Seq<Position>,
)
    requires
        body.len() >= 1,
        body.len() == board.area(),
        stays_on_board(body, direction, board),
        !body.contains(next_head(body, direction)),
    ensures
        resolve(body, direction, board, food) == GameOutcome::Terminated(
            TerminationReason::Filled,
        ),
        body_after(body, direction, board, food) == body,
        food_after(body, direction, board, food) == food,
{
}

/// In a well-formed game the board is never found full: a step that neither
/// the wall nor the body stops leads to a free cell, so the body is shorter
/// than the board has cells.
pub proof fn lemma_well_formed_is_never_filled(
    body: Seq<Position>,
    direction: Direction,
    board: Board,
    food: Seq<Position>,
)
    requires
        well_formed_state(body, direction, board, food),
    ensures
        resolve(body, direction, board, food) != GameOutcome::Terminated(TerminationReason::Filled),
        body.len() <= board.area(),
{
    crate::board::lemma_cells_fit(board, body);
    if stays_on_board(body, direction, board) && !body.contains(next_head(body, direction)) {
        crate::board::lemma_free_cell_leaves_room(board, body, next_head(body, direction));
    }
}

/// Putting the next head in front of the body, or of the body without its
/// tail, gives a well-formed body into whose neck the direction of the move
/// does not lead.
proof fn lemma_moved_body(
    body: Seq<Position>,
    direction: Direction,
    board: Board,
    kept: Seq<Position>,
)
    requires
        well_formed_body(body, board),
        stays_on_board(body, direction, board),
        !body.contains(next_head(body, direction)),
        kept == body || kept == body.drop_last(),
    ensures
        well_formed_body(seq![next_head(body, direction)] + kept, board),
        !reverses(seq![next_head(body, direction)] + kept, direction),
{
    let next = next_head(body, direction);
    let after = seq![next] + kept;
    assert(after[0] == next);
    assert forall|i: int| 1 <= i < after.len() implies after[i] == body[i - 1] by {}
    assert forall|i: int, j: int| 0 <= i < after.len() && 0 <= j < after.len() && i != j implies after[i]
        != after[j] by {
        if i >= 1 {
            assert(body.contains(body[i - 1]));
        }
        if j >= 1 {
            assert(body.contains(body[j - 1]));
        }
    }
    assert forall|i: int| 0 <= i < after.len() implies board.spec_contains(#[trigger] after[i]) by {
        if i >= 1 {
            assert(board.spec_contains(body[i - 1]));
        }
    }
    assert forall|i: int| 0 <= i < after.len() - 1 implies (#[trigger] after[i]).adjacent(
        after[i + 1],
    ) by {
        if i == 0 {
            assert(after[1] == body[0]);
            assert(body[0].is_neighbor(next, direction.spec_side().spec_opposite()));
        } else {
            assert(body[i - 1].adjacent(body[i]));
        }
    }
    assert(after[1] == body[0]);
}

} // verus!
