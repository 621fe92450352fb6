//! The game board: a fixed 25 x 25 grid of squares, stored row by row.

use vstd::prelude::*;

verus! {

/// Number of columns of the board.
pub const BOARD_WIDTH: usize = 25;

/// Number of rows of the board.
pub const BOARD_HEIGHT: usize = 25;

/// Number of squares of the board.
pub const BOARD_CELLS: usize = 625;

/// A (column, row) coordinate pair. It may lie off the board: lookups at such
/// a location find nothing.
#[derive(Clone, Copy, Debug, PartialEq, Eq, Structural)]
pub struct BoardLocation {
    pub x: usize,
    pub y: usize,
}

/// A scoring modifier, fixed to a square when the board is built.
#[derive(Clone, Copy, Debug, PartialEq, Eq, Structural)]
pub enum SquareModifier {
    TripleWord,
    DoubleWord,
    TripleLetter,
    DoubleLetter,
}

/// A letter tile and its point value. The blank tile has the letter `' '`.
#[derive(Clone, Copy, Debug, PartialEq, Eq, Structural)]
pub struct Tile {
    pub letter: char,
    pub value: usize,
}

/// One cell of the grid: the tile placed on it, if any, and its modifier, if any.
#[derive(Clone, Copy, Debug, PartialEq, Eq, Structural)]
pub struct Square {
    pub tile: Option<Tile>,
    pub modifier: Option<SquareModifier>,
}

/// Whether `(x, y)` names a square of the board.
pub open spec fn in_bounds(x: int, y: int) -> bool {
    0 <= x < BOARD_WIDTH && 0 <= y < BOARD_HEIGHT
}

/// Position of square `(x, y)` in the row-major cell sequence.
pub open spec fn cell_index(x: int, y: int) -> int {
    y * BOARD_WIDTH + x
}

/// The modifier table: the one scoring modifier of the board sits in the corner.
pub open spec fn modifier_at(x: int, y: int) -> Option<SquareModifier> {
    if x == 0 && y == 0 {
        Some(SquareModifier::TripleWord)
    } else {
        None
    }
}

/// Number of squares in `cells` that hold a tile.
pub open spec fn count_tiles(cells: Seq<Square>) -> nat
    decreases cells.len(),
{
    if cells.len() == 0 {
        0
    } else {
        count_tiles(cells.drop_last()) + if cells.last().tile is Some {
            1nat
        } else {
            0nat
        }
    }
}

/// Filling an empty cell with a tile raises the tile count by one.
proof fn lemma_count_tiles_fill(cells: Seq<Square>, i: int, s: Square)
    requires
        0 <= i < cells.len(),
        cells[i].tile is None,
        s.tile is Some,
    ensures
        count_tiles(cells.update(i, s)) == count_tiles(cells) + 1,
    decreases cells.len(),
{
    let u = cells.update(i, s);
    if i == cells.len() - 1 {
        assert(u.drop_last() =~= cells.drop_last());
    } else {
        lemma_count_tiles_fill(cells.drop_last(), i, s);
        assert(u.drop_last() =~= cells.drop_last().update(i, s));
    }
}

fn modifier_for(x: usize, y: usize) -> (r: Option<SquareModifier>)
    ensures
        r == modifier_at(x as int, y as int),
{
    if x == 0 && y == 0 {
        Some(SquareModifier::TripleWord)
    } else {
        None
    }
}

/// The grid, held as one row-major sequence of `BOARD_CELLS` squares.
#[derive(Clone, Debug)]
pub struct Board {
    squares: Vec<Square>,
}

impl View for Board {
    type V = Seq<Square>;

    closed spec fn view(&self) -> Seq<Square> {
        self.squares@
    }
}

impl Board {
    /// Every square of the grid is present.
    pub open spec fn wf(&self) -> bool {
        self@.len() == BOARD_CELLS
    }

    /// The square at `(x, y)`; meaningful for `in_bounds(x, y)`.
    pub open spec fn square(&self, x: int, y: int) -> Square {
        self@[cell_index(x, y)]
    }

    /// The square at `(x, y)`, or `None` off the board.
    pub open spec fn lookup(&self, x: int, y: int) -> Option<Square> {
        if in_bounds(x, y) {
            Some(self.square(x, y))
        } else {
            None
        }
    }

    /// Whether `(x, y)` is on the board and holds a tile.
    pub open spec fn occupied(&self, x: int, y: int) -> bool {
        in_bounds(x, y) && self.square(x, y).tile is Some
    }

    /// Number of tiles placed on the board.
    pub open spec fn tile_count(&self) -> nat {
        count_tiles(self@)
    }

    /// A board with no tiles, each square carrying the modifier of the table.
    pub fn new() -> (board: Board)
        ensures
            board.wf(),
            board.tile_count() == 0,
            forall|x: int, y: int|
                in_bounds(x, y) ==> #[trigger] board.square(x, y) == (Square {
                    tile: None,
                    modifier: modifier_at(x, y),
                }),
    {
        let mut squares: Vec<Square> = Vec::new();
        let mut y: usize = 0;
        while y < BOARD_HEIGHT
            invariant
                y <= BOARD_HEIGHT,
                squares@.len() == y * BOARD_WIDTH,
                count_tiles(squares@) == 0,
                forall|i: int, j: int|
                    0 <= i < BOARD_WIDTH && 0 <= j < y ==> #[trigger] squares@[cell_index(i, j)]
                        == (Square { tile: None, modifier: modifier_at(i, j) }),
            decreases BOARD_HEIGHT - y,
        {
            let mut x: usize = 0;
            while x < BOARD_WIDTH
                invariant
                    y < BOARD_HEIGHT,
                    x <= BOARD_WIDTH,
                    squares@.len() == y * BOARD_WIDTH + x,
                    count_tiles(squares@) == 0,
                    forall|i: int, j: int|
                        0 <= i < BOARD_WIDTH && 0 <= j < y ==> #[trigger] squares@[cell_index(i, j)]
                            == (Square { tile: None, modifier: modifier_at(i, j) }),
                    forall|i: int|
                        0 <= i < x ==> #[trigger] squares@[cell_index(i, y as int)] == (Square {
                            tile: None,
                            modifier: modifier_at(i, y as int),
                        }),
                decreases BOARD_WIDTH - x,
            {
                let ghost before = squares@;
                squares.push(Square { tile: None, modifier: modifier_for(x, y) });
                assert(squares@.drop_last() == before);
                x = x + 1;
            }
            y = y + 1;
        }
        Board { squares }
    }
    /// The square at `location`, or `None` when either coordinate is off the board.
    pub fn get_square(&self, location: &BoardLocation) -> (r: Option<Square>)
        requires
            self.wf(),
        ensures
            r == self.lookup(location.x as int, location.y as int),
    {
        if location.x >= BOARD_WIDTH {
            return None;
        } else if location.y >= BOARD_HEIGHT {
            return None;
        }
        Some(self.squares[location.y * BOARD_WIDTH + location.x])
    }

    /// Whether `location` is on the board and holds a tile. Off the board this
    /// is `false`, as for an empty square.
    pub fn has_square(&self, location: &BoardLocation) -> (r: bool)
        requires
            self.wf(),
        ensures
            r == self.occupied(location.x as int, location.y as int),
    {
        match self.get_square(location) {
            Some(sq) => match sq.tile {
                Some(_) => true,
                None => false,
            },
            None => false,
        }
    }

    fn set_square(&mut self, location: &BoardLocation, square: Square)
        requires
            old(self).wf(),
            in_bounds(location.x as int, location.y as int),
        ensures
            final(self)@ == old(self)@.update(
                cell_index(location.x as int, location.y as int),
                square,
            ),
    {
        self.squares.set(location.y * BOARD_WIDTH + location.x, square);
    }

    /// Puts `tile` on the empty square at `location`, keeping its modifier.
    pub fn place_tile(&mut self, location: &BoardLocation, tile: Tile)
        requires
            old(self).wf(),
            in_bounds(location.x as int, location.y as int),
            !old(self).occupied(location.x as int, location.y as int),
        ensures
            final(self).wf(),
            final(self)@ == old(self)@.update(
                cell_index(location.x as int, location.y as int),
                Square {
                    tile: Some(tile),
                    modifier: old(self).square(location.x as int, location.y as int).modifier,
                },
            ),
            final(self).tile_count() == old(self).tile_count() + 1,
    {
        let mut square = self.get_square(location).unwrap();
        square.tile = Some(tile);
        proof {
            lemma_count_tiles_fill(
                self@,
                cell_index(location.x as int, location.y as int),
                square,
            );
        }
        self.set_square(location, square)
    }
}

} // verus!
