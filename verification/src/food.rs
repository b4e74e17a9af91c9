//! Food placement: which cells are free, and a random draw among them.

use crate::board::lemma_tiles_are_the_board;
use crate::board::Board;
use crate::cells::free_of;
use crate::cells::lemma_filter_keeps;
use crate::cells::outside_of;
use crate::position::Position;
use rand::rngs::StdRng;
use rand::seq::IteratorRandom;
use vstd::prelude::*;

verus! {

/// The seedable random number generator of the `rand` crate.
#[verifier::external_type_specification]
#[verifier::external_body]
pub struct ExStdRng(rand::rngs::StdRng);

/// The cell on which the first apple of a game lies.
pub fn spawn_apple() -> (cell: Position)
    ensures
        cell == (Position { x: 15, y: 15 }),
{
    Position::new(15, 15)
}

/// The cells of the board that `occupied` does not list, in the order of the
/// board's tiles.
pub open spec fn free_cells(board: Board, occupied: Seq<Position>) -> Seq<Position> {
    board.spec_tiles().filter(outside_of(occupied))
}

/// `cells` is a draw of `count` cells from `free` without replacement: as
/// many as asked for, or as many as there are where that is fewer, and each
/// listed cell as often as it is listed at most.
pub open spec fn drawn_from(cells: Seq<Position>, free: Seq<Position>, count: nat) -> bool {
    &&& cells.len() == if count <= free.len() {
        count
    } else {
        free.len()
    }
    &&& cells.to_multiset().subset_of(free.to_multiset())
}

/// Calls `IteratorRandom::choose_multiple` on the cells. The draw is without
/// replacement: it hands back `amount` of the listed cells, each listed cell
/// as often as it is listed at most. Which cells, and in which order, is up
/// to the generator. `amount` may not exceed the number of cells.
#[verifier::external_body]
fn choose_multiple(cells: Vec<Position>, rng: &mut StdRng, amount: usize) -> (chosen: Vec<Position>)
    requires
        amount <= cells@.len(),
    ensures
        chosen@.len() == amount,
        chosen@.to_multiset().subset_of(cells@.to_multiset()),
{
    cells.into_iter().choose_multiple(rng, amount)
}

/// What a draw without replacement from cells that are listed once each
/// gives: cells of the list, none twice; all of them, if as many are drawn as
/// are listed.
pub proof fn lemma_drawn_cells(free: Seq<Position>, chosen: Seq<Position>)
    requires
        free.no_duplicates(),
        chosen.to_multiset().subset_of(free.to_multiset()),
    ensures
        chosen.no_duplicates(),
        forall|c: Position| chosen.contains(c) ==> free.contains(c),
        chosen.len() == free.len() ==> chosen.to_set() == free.to_set(),
        chosen.len() == 1 && free.len() == 1 ==> chosen == free,
{
    free.to_multiset_ensures();
    chosen.to_multiset_ensures();
    free.lemma_multiset_has_no_duplicates();
    assert forall|c: Position| chosen.to_multiset().contains(c) implies chosen.to_multiset().count(c)
        == 1 by {
        assert(chosen.to_multiset().count(c) <= free.to_multiset().count(c));
        assert(free.to_multiset().contains(c));
    }
    chosen.lemma_multiset_has_no_duplicates_conv();
    assert forall|c: Position| chosen.contains(c) implies free.contains(c) by {
        assert(chosen.to_multiset().count(c) <= free.to_multiset().count(c));
    }
    if chosen.len() == free.len() {
        chosen.unique_seq_to_set();
        free.unique_seq_to_set();
        vstd::seq_lib::seq_to_set_is_finite(free);
        vstd::seq_lib::seq_to_set_is_finite(chosen);
        assert(chosen.to_set().subset_of(free.to_set()));
        vstd::set_lib::lemma_subset_equality(chosen.to_set(), free.to_set());
    }
    if chosen.len() == 1 && free.len() == 1 {
        assert(chosen.contains(chosen[0]));
        assert(chosen =~= free);
    }
}

/// The free cells are cells of the board that `occupied` does not list, each
/// such cell is among them, and none is listed twice.
pub proof fn lemma_free_cells(board: Board, occupied: Seq<Position>)
    ensures
        free_cells(board, occupied).no_duplicates(),
        forall|c: Position| #[trigger]
            free_cells(board, occupied).contains(c) <==> board.spec_contains(c)
                && !occupied.contains(c),
{
    lemma_tiles_are_the_board(board);
    lemma_filter_keeps(board.spec_tiles(), outside_of(occupied));
}

/// Where all cells of the board but one are occupied, that cell is the one
/// free cell.
pub proof fn lemma_last_free_cell(board: Board, occupied: Seq<Position>, cell: Position)
    requires
        board.spec_contains(cell),
        !occupied.contains(cell),
        forall|c: Position| board.spec_contains(c) && c != cell ==> occupied.contains(c),
    ensures
        free_cells(board, occupied) == seq![cell],
{
    let free = free_cells(board, occupied);
    lemma_free_cells(board, occupied);
    assert(free.contains(cell));
    assert forall|i: int| 0 <= i < free.len() implies free[i] == cell by {
        assert(free.contains(free[i]));
    }
    if free.len() >= 2 {
        assert(free[0] == free[1]);
    }
    assert(free =~= seq![cell]);
}

/// A draw of one cell or more, where all cells of the board but one are
/// occupied, gives that cell and nothing else.
pub proof fn lemma_single_free_cell_is_drawn(
    board: Board,
    occupied: Seq<Position>,
    cell: Position,
    count: nat,
    cells: Seq<Position>,
)
    requires
        board.spec_contains(cell),
        !occupied.contains(cell),
        forall|c: Position| board.spec_contains(c) && c != cell ==> occupied.contains(c),
        count >= 1,
        drawn_from(cells, free_cells(board, occupied), count),
    ensures
        cells == seq![cell],
{
    lemma_last_free_cell(board, occupied, cell);
    lemma_free_cells(board, occupied);
    lemma_drawn_cells(free_cells(board, occupied), cells);
}

/// Draws cells for new food: `count` of the board's free cells, or all of
/// them where fewer are free, chosen at random without replacement.
pub fn spawn(
    count: usize,
    occupied: &Vec<Position>,
    board: &Board,
    rng: &mut StdRng,
) -> (cells: Vec<Position>)
    ensures
        drawn_from(cells@, free_cells(*board, occupied@), count as nat),
        cells@.no_duplicates(),
        forall|i: int|
            0 <= i < cells@.len() ==> board.spec_contains(#[trigger] cells@[i])
                && !occupied@.contains(cells@[i]),
        count >= free_cells(*board, occupied@).len() ==> cells@.to_set() == free_cells(
            *board,
            occupied@,
        ).to_set(),
        count >= 1 && free_cells(*board, occupied@).len() == 1 ==> cells@ == free_cells(
            *board,
            occupied@,
        ),
{
    let tiles = board.tiles();
    let free = free_of(&tiles, occupied);
    let amount = if count <= free.len() {
        count
    } else {
        free.len()
    };
    let ghost listed = free@;
    let cells = choose_multiple(free, rng, amount);
    proof {
        lemma_free_cells(*board, occupied@);
        lemma_drawn_cells(listed, cells@);
        assert forall|i: int| 0 <= i < cells@.len() implies board.spec_contains(
            #[trigger] cells@[i],
        ) && !occupied@.contains(cells@[i]) by {
            assert(cells@.contains(cells@[i]));
            assert(listed.contains(cells@[i]));
        }
    }
    cells
}

} // verus!
