//! The snake's body: an ordered run of cells, head first.

use crate::board::Board;
use crate::cells::all_distinct;
use crate::position::Position;
use std::collections::VecDeque;
use vstd::prelude::*;

verus! {

/// The body of the snake. The front of `segments` is the head, the back is
/// the tail.
#[derive(Debug, Clone)]
pub struct Snake {
    pub segments: VecDeque<Position>,
}

impl View for Snake {
    type V = Seq<Position>;

    open spec fn view(&self) -> Seq<Position> {
        self.segments@
    }
}

/// Each cell of the body is an orthogonal neighbour of the one before it.
pub open spec fn chained(body: Seq<Position>) -> bool {
    forall|i: int| 0 <= i < body.len() - 1 ==> (#[trigger] body[i]).adjacent(body[i + 1])
}

/// What holds of a body between ticks: it has a head and a tail, lies on the
/// board, is connected, and covers no cell twice.
pub open spec fn well_formed_body(body: Seq<Position>, board: Board) -> bool {
    &&& body.len() >= 2
    &&& body.no_duplicates()
    &&& board.holds(body)
    &&& chained(body)
}

impl Default for Snake {
    fn default() -> (snake: Snake)
        ensures
            snake@ == Seq::<Position>::empty(),
    {
        Snake { segments: VecDeque::new() }
    }
}

impl Snake {
    /// The body is well formed on the board.
    pub open spec fn well_formed(&self, board: Board) -> bool {
        well_formed_body(self@, board)
    }

    /// Whether the body is well formed on the board.
    pub fn is_well_formed(&self, board: &Board) -> (valid: bool)
        ensures
            valid == self.well_formed(*board),
    {
        let cells = self.cells();
        let n = cells.len();
        if n < 2 || !all_distinct(&cells) || !board.contains_all(&cells) {
            return false;
        }
        let mut i: usize = 0;
        while i < n - 1
            invariant
                n == cells@.len(),
                cells@ == self@,
                n >= 2,
                i <= n - 1,
                forall|k: int| 0 <= k < i ==> (#[trigger] cells@[k]).adjacent(cells@[k + 1]),
            decreases n - i,
        {
            if !cells[i].is_adjacent(&cells[i + 1]) {
                assert(!self@[i as int].adjacent(self@[i + 1]));
                return false;
            }
            i += 1;
        }
        true
    }

    /// How many cells the body covers.
    pub fn len(&self) -> (len: usize)
        ensures
            len == self@.len(),
    {
        self.segments.len()
    }

    /// The cell of the head.
    pub fn head(&self) -> (head: Position)
        requires
            self@.len() >= 1,
        ensures
            head == self@[0],
    {
        self.segments[0]
    }

    /// The cell right behind the head, if the body has one.
    pub fn neck(&self) -> (neck: Option<Position>)
        ensures
            neck == if self@.len() >= 2 {
                Some(self@[1])
            } else {
                None
            },
    {
        if self.segments.len() >= 2 {
            Some(self.segments[1])
        } else {
            None
        }
    }

    /// The cell of the tail.
    pub fn tail(&self) -> (tail: Position)
        requires
            self@.len() >= 1,
        ensures
            tail == self@.last(),
    {
        self.segments[self.segments.len() - 1]
    }

    /// Whether the body covers the cell.
    pub fn contains(&self, cell: &Position) -> (covered: bool)
        ensures
            covered == self@.contains(*cell),
    {
        let mut i: usize = 0;
        while i < self.segments.len()
            invariant
                i <= self@.len(),
                forall|k: int| 0 <= k < i ==> self@[k] != *cell,
            decreases self@.len() - i,
        {
            if self.segments[i] == *cell {
                return true;
            }
            i += 1;
        }
        false
    }

    /// Puts a new head in front of the body, which is then one cell longer.
    pub fn grow(&mut self, head: Position)
        ensures
            final(self)@ == seq![head] + old(self)@,
    {
        self.segments.push_front(head);
    }

    /// Puts a new head in front of the body and takes the tail away, so that
    /// the length stays. Hands back the cell that the tail left.
    pub fn slide(&mut self, head: Position) -> (left: Position)
        requires
            old(self)@.len() >= 1,
        ensures
            final(self)@ == seq![head] + old(self)@.drop_last(),
            left == old(self)@.last(),
    {
        let left = self.tail();
        self.segments.push_front(head);
        self.segments.pop_back();
        assert(self@ =~= seq![head] + old(self)@.drop_last());
        left
    }

    /// The cells of the body, head first.
    pub fn cells(&self) -> (cells: Vec<Position>)
        ensures
            cells@ == self@,
    {
        let mut cells: Vec<Position> = Vec::new();
        let mut i: usize = 0;
        while i < self.segments.len()
            invariant
                i <= self@.len(),
                cells@ == self@.take(i as int),
            decreases self@.len() - i,
        {
            cells.push(self.segments[i]);
            i += 1;
            assert(self@.take(i as int) =~= self@.take(i - 1).push(self@[i - 1]));
        }
        assert(self@.take(self@.len() as int) =~= self@);
        cells
    }
}

/// The body at the start of a game: the head on `(4, 4)`, the tail on
/// `(3, 4)`.
pub fn spawn_snake() -> (snake: Snake)
    ensures
        snake@ == seq![Position { x: 4, y: 4 }, Position { x: 3, y: 4 }],
{
    let mut segments: VecDeque<Position> = VecDeque::new();
    segments.push_front(Position::new(3, 4));
    segments.push_front(Position::new(4, 4));
    assert(segments@ =~= seq![Position { x: 4, y: 4 }, Position { x: 3, y: 4 }]);
    Snake { segments }
}

/// The starting body is well formed on every board of five cells a side or
/// more.
pub proof fn lemma_start_is_well_formed(board: Board)
    requires
        board.size >= 5,
    ensures
        well_formed_body(seq![Position { x: 4, y: 4 }, Position { x: 3, y: 4 }], board),
{
    let body = seq![Position { x: 4, y: 4 }, Position { x: 3, y: 4 }];
    assert(body[1].is_neighbor(body[0], crate::position::RelativePosition::West));
}

} // verus!
