//! The square board and the enumeration of its cells.

use crate::position::Position;
use itertools::Itertools;
use vstd::arithmetic::div_mod::lemma_fundamental_div_mod;
use vstd::arithmetic::div_mod::lemma_fundamental_div_mod_converse;
use vstd::prelude::*;

verus! {

/// The side of a tile, in pixels.
pub const TILE_SIZE: i64 = 30;

/// The gap between two tiles and around the board, in pixels.
pub const TILE_SPACER: i64 = 0;

/// A square board of `size` by `size` cells.
#[derive(Debug, Clone, Copy, PartialEq, Eq, Structural)]
pub struct Board {
    pub size: u16,
}

/// The two shades in which the tiles of the board alternate.
#[derive(Debug, Clone, Copy, PartialEq, Eq, Hash, Structural)]
pub enum TileShade {
    Light,
    Dark,
}

/// The cell that a board of the given size lists at index `i`: columns
/// first, and inside a column the rows from the bottom up.
pub open spec fn tile_at(size: int, i: int) -> Position {
    Position { x: (i / size) as i32, y: (i % size) as i32 }
}

impl Board {
    /// The cell lies on the board.
    pub open spec fn spec_contains(&self, cell: Position) -> bool {
        0 <= cell.x < self.size && 0 <= cell.y < self.size
    }

    /// Every cell of a sequence lies on the board.
    pub open spec fn holds(&self, cells: Seq<Position>) -> bool {
        forall|i: int| 0 <= i < cells.len() ==> self.spec_contains(#[trigger] cells[i])
    }

    /// How many cells the board has.
    pub open spec fn area(&self) -> int {
        self.size * self.size
    }

    /// All cells of the board, in the order in which `tiles` lists them.
    pub open spec fn spec_tiles(&self) -> Seq<Position> {
        Seq::new(self.area() as nat, |i: int| tile_at(self.size as int, i))
    }

    /// The side of the board in pixels: its tiles and the gaps between and
    /// around them.
    pub open spec fn spec_physical_size(&self) -> int {
        self.size * TILE_SIZE + (self.size + 1) * TILE_SPACER
    }

    /// Where the centre of the tiles of column or row `pos` lies, in pixels
    /// from the centre of the board.
    pub open spec fn spec_cell_position_to_physical(&self, pos: int) -> int {
        TILE_SIZE / 2 - self.spec_physical_size() / 2 + pos * TILE_SIZE + (pos + 1) * TILE_SPACER
    }

    /// A board of `size` by `size` cells.
    pub fn new(size: u16) -> (board: Board)
        ensures
            board.size == size,
    {
        Board { size }
    }

    /// The side of the board in pixels.
    pub fn physical_size(&self) -> (pixels: i64)
        ensures
            pixels == self.spec_physical_size(),
    {
        self.size as i64 * TILE_SIZE + (self.size as i64 + 1) * TILE_SPACER
    }

    /// Where the centre of the tiles of column or row `pos` lies, in pixels
    /// from the centre of the board. Neighbouring columns lie one tile and
    /// one gap apart, and the board is centred: twice the result is
    /// `2 * pos + 1 - size` tiles.
    pub fn cell_position_to_physical(&self, pos: i32) -> (pixels: i64)
        ensures
            pixels == self.spec_cell_position_to_physical(pos as int),
            2 * pixels == (2 * pos + 1 - self.size) * TILE_SIZE,
    {
        let offset = TILE_SIZE / 2 - self.physical_size() / 2;
        offset + pos as i64 * TILE_SIZE + (pos as i64 + 1) * TILE_SPACER
    }

    /// Whether the cell lies on the board.
    pub fn contains(&self, cell: &Position) -> (inside: bool)
        ensures
            inside == self.spec_contains(*cell),
    {
        0 <= cell.x && cell.x < self.size as i32 && 0 <= cell.y && cell.y < self.size as i32
    }

    /// Whether every cell of the list lies on the board.
    pub fn contains_all(&self, cells: &Vec<Position>) -> (inside: bool)
        ensures
            inside == self.holds(cells@),
    {
        let mut i: usize = 0;
        while i < cells.len()
            invariant
                i <= cells@.len(),
                forall|k: int| 0 <= k < i ==> self.spec_contains(#[trigger] cells@[k]),
            decreases cells@.len() - i,
        {
            if !self.contains(&cells[i]) {
                return false;
            }
            i += 1;
        }
        true
    }

    /// The shade of the tile under a cell: light where column and row add up
    /// to an even number, dark elsewhere.
    pub fn shade(&self, cell: &Position) -> (shade: TileShade)
        ensures
            shade == shade_of(*cell),
    {
        let sum: i64 = cell.x as i64 + cell.y as i64;
        if sum % 2 == 0 {
            TileShade::Light
        } else {
            TileShade::Dark
        }
    }

    /// All cells of the board, each once: column by column, and inside a
    /// column from the bottom row up.
    pub fn tiles(&self) -> (tiles: Vec<Position>)
        ensures
            tiles@ == self.spec_tiles(),
    {
        let pairs = cartesian_square(self.size);
        let mut tiles: Vec<Position> = Vec::new();
        let mut i: usize = 0;
        while i < pairs.len()
            invariant
                i <= pairs.len(),
                pairs@.len() == self.area(),
                forall|k: int|
                    0 <= k < pairs@.len() ==> #[trigger] pairs@[k] == grid_pair(self.size, k),
                tiles@.len() == i,
                forall|k: int| 0 <= k < i ==> #[trigger] tiles@[k] == tile_at(self.size as int, k),
            decreases pairs.len() - i,
        {
            proof {
                lemma_tile_at(*self, i as int);
            }
            let (x, y) = pairs[i];
            tiles.push(Position::new(x as i32, y as i32));
            i += 1;
        }
        assert(tiles@ =~= self.spec_tiles());
        tiles
    }
}

/// The shade of the tile under a cell.
pub open spec fn shade_of(cell: Position) -> TileShade {
    if (cell.x + cell.y) % 2 == 0 {
        TileShade::Light
    } else {
        TileShade::Dark
    }
}

/// The tiles to lay out for the board: each cell, in the order of `tiles`,
/// with its shade.
pub fn spawn_board(board: &Board) -> (laid: Vec<(Position, TileShade)>)
    ensures
        laid@.len() == board.spec_tiles().len(),
        forall|i: int|
            0 <= i < laid@.len() ==> #[trigger] laid@[i] == (
                board.spec_tiles()[i],
                shade_of(board.spec_tiles()[i]),
            ),
{
    let tiles = board.tiles();
    let mut laid: Vec<(Position, TileShade)> = Vec::new();
    let mut i: usize = 0;
    while i < tiles.len()
        invariant
            i <= tiles@.len(),
            tiles@ == board.spec_tiles(),
            laid@.len() == i,
            forall|k: int| 0 <= k < i ==> #[trigger] laid@[k] == (tiles@[k], shade_of(tiles@[k])),
        decreases tiles@.len() - i,
    {
        laid.push((tiles[i], board.shade(&tiles[i])));
        i += 1;
    }
    laid
}

/// The pair that stands at index `i` when two copies of `0..size` are
/// combined, the first one varying slowest.
pub open spec fn grid_pair(size: u16, i: int) -> (u16, u16) {
    ((i / size as int) as u16, (i % size as int) as u16)
}

/// Calls `Itertools::cartesian_product` on `0..size` and `0..size` and
/// collects the pairs. The product pairs every item of the first range, in
/// order, with every item of the second, in order, so it has `size * size`
/// pairs and the pair at index `i` is `(i / size, i % size)`.
#[verifier::external_body]
fn cartesian_square(size: u16) -> (pairs: Vec<(u16, u16)>)
    ensures
        pairs@.len() == size * size,
        forall|i: int| 0 <= i < pairs@.len() ==> #[trigger] pairs@[i] == grid_pair(size, i),
{
    (0..size).cartesian_product(0..size).collect()
}

/// The index at which a board lists a cell that lies on it.
pub open spec fn tile_index(size: int, cell: Position) -> int {
    cell.x * size + cell.y
}

/// The cell listed at an index below the board's area lies on the board, and
/// the index is the one the cell is listed at.
pub proof fn lemma_tile_at(board: Board, i: int)
    requires
        0 <= i < board.area(),
    ensures
        0 <= i / (board.size as int) < board.size,
        0 <= i % (board.size as int) < board.size,
        board.spec_contains(tile_at(board.size as int, i)),
        tile_index(board.size as int, tile_at(board.size as int, i)) == i,
        board.spec_tiles()[i] == tile_at(board.size as int, i),
{
    let n = board.size as int;
    assert(n > 0) by (nonlinear_arith)
        requires
            0 <= i < n * n,
            n >= 0,
    ;
    lemma_fundamental_div_mod(i, n);
    assert(0 <= i / n < n) by (nonlinear_arith)
        requires
            0 <= i < n * n,
            n > 0,
            i == n * (i / n) + i % n,
            0 <= i % n < n,
    ;
    assert(n * (i / n) == (i / n) * n) by (nonlinear_arith);
}

/// A cell on the board is listed at its index, which lies below the area.
pub proof fn lemma_tile_index(board: Board, cell: Position)
    requires
        board.spec_contains(cell),
    ensures
        0 <= tile_index(board.size as int, cell) < board.area(),
        tile_at(board.size as int, tile_index(board.size as int, cell)) == cell,
        board.spec_tiles()[tile_index(board.size as int, cell)] == cell,
{
    let n = board.size as int;
    let x = cell.x as int;
    let y = cell.y as int;
    assert(0 <= x * n + y < n * n) by (nonlinear_arith)
        requires
            0 <= x < n,
            0 <= y < n,
    ;
    assert(x * n + y == n * x + y) by (nonlinear_arith);
    lemma_fundamental_div_mod_converse(x * n + y, n, x, y);
}

/// The tiles of a board are its cells: each cell of the board is listed, no
/// other cell is, and none is listed twice.
pub proof fn lemma_tiles_are_the_board(board: Board)
    ensures
        board.spec_tiles().len() == board.area(),
        board.spec_tiles().no_duplicates(),
        forall|cell: Position|
            #[trigger] board.spec_tiles().contains(cell) <==> board.spec_contains(cell),
{
    let tiles = board.spec_tiles();
    let n = board.size as int;
    assert(board.area() >= 0) by (nonlinear_arith)
        requires
            board.area() == n * n,
    ;
    assert forall|i: int, j: int| 0 <= i < tiles.len() && 0 <= j < tiles.len() && i != j implies tiles[i]
        != tiles[j] by {
        lemma_tile_at(board, i);
        lemma_tile_at(board, j);
    }
    assert forall|cell: Position| #[trigger] tiles.contains(cell) <==> board.spec_contains(cell) by {
        if tiles.contains(cell) {
            let i = choose|i: int| 0 <= i < tiles.len() && tiles[i] == cell;
            lemma_tile_at(board, i);
        }
        if board.spec_contains(cell) {
            lemma_tile_index(board, cell);
        }
    }
}

/// The pixel positions are centred on the board and evenly spaced: mirrored
/// columns lie at opposite positions, and each column lies one tile and one
/// gap beyond the one before it.
pub proof fn lemma_physical_positions(board: Board, pos: int)
    ensures
        board.spec_cell_position_to_physical(board.size - 1 - pos)
            == -board.spec_cell_position_to_physical(pos),
        board.spec_cell_position_to_physical(pos + 1) == board.spec_cell_position_to_physical(pos)
            + TILE_SIZE + TILE_SPACER,
        2 * board.spec_cell_position_to_physical(pos) == (2 * pos + 1 - board.size) * TILE_SIZE,
{
}

/// Cells of the board, none listed twice, are no more than the board has.
pub proof fn lemma_cells_fit(board: Board, cells: Seq<Position>)
    requires
        cells.no_duplicates(),
        board.holds(cells),
    ensures
        cells.len() <= board.area(),
{
    let tiles = board.spec_tiles();
    lemma_tiles_are_the_board(board);
    cells.unique_seq_to_set();
    tiles.unique_seq_to_set();
    assert forall|cell: Position| cells.to_set().contains(cell) implies tiles.to_set().contains(
        cell,
    ) by {
        let i = choose|i: int| 0 <= i < cells.len() && cells[i] == cell;
        assert(board.spec_contains(cells[i]));
        assert(tiles.contains(cell));
    }
    vstd::seq_lib::seq_to_set_is_finite(tiles);
    vstd::set_lib::lemma_len_subset(cells.to_set(), tiles.to_set());
}

/// Where a cell of the board is still free, the listed cells are fewer than
/// the board has.
pub proof fn lemma_free_cell_leaves_room(board: Board, cells: Seq<Position>, free: Position)
    requires
        cells.no_duplicates(),
        board.holds(cells),
        board.spec_contains(free),
        !cells.contains(free),
    ensures
        cells.len() < board.area(),
{
    let more = cells.push(free);
    assert forall|i: int, j: int| 0 <= i < more.len() && 0 <= j < more.len() && i != j implies more[i]
        != more[j] by {
        if i < cells.len() {
            assert(cells.contains(cells[i]));
        }
        if j < cells.len() {
            assert(cells.contains(cells[j]));
        }
    }
    assert forall|i: int| 0 <= i < more.len() implies board.spec_contains(#[trigger] more[i]) by {
        if i < cells.len() {
            assert(board.spec_contains(cells[i]));
        }
    }
    lemma_cells_fit(board, more);
}

} // verus!
