//! The placement validator: a proposed set of (location, tile) pairs becomes a
//! `Word` only if it is non-empty, lies on one line, covers no placed tile and
//! touches other tiles.

use vstd::prelude::*;
use crate::board::{Board, BoardLocation, Tile};

verus! {

/// Why a proposed placement was rejected.
#[derive(Clone, Copy, Debug, PartialEq, Eq, Structural)]
pub enum WordError {
    /// No tile was proposed.
    EmptyPlacement,
    /// The tiles lie neither in one column nor in one row.
    NotCollinear,
    /// A tile targets a square that already holds one.
    SquareOccupied,
    /// A tile has no neighbour along the line of the placement.
    NotAdjacent,
}

impl WordError {
    /// A sentence that explains the rejection to a player.
    pub fn message(&self) -> &'static str {
        match self {
            WordError::EmptyPlacement => "Word must contain at least one tile.",
            WordError::NotCollinear => "Word must be on one line (horizontally or vertically)!",
            WordError::SquareOccupied => "Cannot place tile on an existing tile!",
            WordError::NotAdjacent => "Tile is not adjacent to any other tile.",
        }
    }
}

/// Pairs `0..=i` all lie in the column of pair 0.
pub open spec fn same_column_through(p: Seq<(BoardLocation, Tile)>, i: int) -> bool {
    forall|k: int| 0 <= k <= i ==> #[trigger] p[k].0.x == p[0].0.x
}

/// Pairs `0..=i` all lie in the row of pair 0.
pub open spec fn same_row_through(p: Seq<(BoardLocation, Tile)>, i: int) -> bool {
    forall|k: int| 0 <= k <= i ==> #[trigger] p[k].0.y == p[0].0.y
}

/// Some pair of the placement lies in row `y`.
pub open spec fn has_row(p: Seq<(BoardLocation, Tile)>, y: int) -> bool {
    exists|k: int| 0 <= k < p.len() && #[trigger] p[k].0.y == y
}

/// Some pair of the placement lies in column `x`.
pub open spec fn has_column(p: Seq<(BoardLocation, Tile)>, x: int) -> bool {
    exists|k: int| 0 <= k < p.len() && #[trigger] p[k].0.x == x
}

/// A neighbour above or below `(x, y)`: a pair of the placement one row off,
/// or a placed tile on the board.
pub open spec fn vertical_support(
    p: Seq<(BoardLocation, Tile)>,
    board: Board,
    x: int,
    y: int,
) -> bool {
    has_row(p, y - 1) || board.occupied(x, y - 1) || has_row(p, y + 1) || board.occupied(x, y + 1)
}

/// A neighbour left or right of `(x, y)`: a pair of the placement one column
/// off, or a placed tile on the board.
pub open spec fn horizontal_support(
    p: Seq<(BoardLocation, Tile)>,
    board: Board,
    x: int,
    y: int,
) -> bool {
    has_column(p, x - 1) || board.occupied(x - 1, y) || has_column(p, x + 1) || board.occupied(
        x + 1,
        y,
    )
}

/// Pair `i` has a neighbour along a line that pairs `0..=i` still share.
pub open spec fn supported(p: Seq<(BoardLocation, Tile)>, board: Board, i: int) -> bool {
    let x = p[i].0.x as int;
    let y = p[i].0.y as int;
    (same_column_through(p, i) && vertical_support(p, board, x, y)) || (same_row_through(p, i)
        && horizontal_support(p, board, x, y))
}

/// The rule that pair `i` breaks first, if any.
pub open spec fn placement_error(p: Seq<(BoardLocation, Tile)>, board: Board, i: int) -> Option<
    WordError,
> {
    if !same_column_through(p, i) && !same_row_through(p, i) {
        Some(WordError::NotCollinear)
    } else if board.occupied(p[i].0.x as int, p[i].0.y as int) {
        Some(WordError::SquareOccupied)
    } else if !supported(p, board, i) {
        Some(WordError::NotAdjacent)
    } else {
        None
    }
}

/// The error of the first pair from `i` on that breaks a rule, if any.
pub open spec fn first_error_from(p: Seq<(BoardLocation, Tile)>, board: Board, i: int) -> Option<
    WordError,
>
    decreases p.len() - i,
{
    if i < 0 || i >= p.len() {
        None
    } else if placement_error(p, board, i) is Some {
        placement_error(p, board, i)
    } else {
        first_error_from(p, board, i + 1)
    }
}

/// The outcome of validating placement `p` against `board`: `None` when it is legal.
pub open spec fn rejection(p: Seq<(BoardLocation, Tile)>, board: Board) -> Option<WordError> {
    if p.len() == 0 {
        Some(WordError::EmptyPlacement)
    } else {
        first_error_from(p, board, 0)
    }
}

proof fn lemma_first_error_skip(p: Seq<(BoardLocation, Tile)>, board: Board, j: int, i: int)
    requires
        0 <= j <= i <= p.len(),
        forall|k: int| j <= k < i ==> #[trigger] placement_error(p, board, k) is None,
    ensures
        first_error_from(p, board, j) == first_error_from(p, board, i),
    decreases i - j,
{
    if j < i {
        lemma_first_error_skip(p, board, j + 1, i);
    }
}

proof fn lemma_no_error_from(p: Seq<(BoardLocation, Tile)>, board: Board, i: int)
    requires
        0 <= i,
        first_error_from(p, board, i) is None,
    ensures
        forall|k: int| i <= k < p.len() ==> #[trigger] placement_error(p, board, k) is None,
    decreases p.len() - i,
{
    if i < p.len() {
        lemma_no_error_from(p, board, i + 1);
    }
}

/// An accepted placement is legal as a whole: it is non-empty, all its pairs
/// share one column or one row, none of them lands on a placed tile, and each
/// has a neighbour along the placement's line.
pub proof fn lemma_accepted_is_legal(p: Seq<(BoardLocation, Tile)>, board: Board)
    requires
        rejection(p, board) is None,
    ensures
        p.len() > 0,
        same_column_through(p, p.len() - 1) || same_row_through(p, p.len() - 1),
        forall|i: int| 0 <= i < p.len() ==> !board.occupied(#[trigger] p[i].0.x as int, p[i].0.y as int),
        forall|i: int| 0 <= i < p.len() ==> #[trigger] supported(p, board, i),
{
    lemma_no_error_from(p, board, 0);
    assert(placement_error(p, board, p.len() - 1) is None);
    assert forall|i: int| 0 <= i < p.len() implies !board.occupied(
        #[trigger] p[i].0.x as int,
        p[i].0.y as int,
    ) by {
        assert(placement_error(p, board, i) is None);
    }
    assert forall|i: int| 0 <= i < p.len() implies #[trigger] supported(p, board, i) by {
        assert(placement_error(p, board, i) is None);
    }
}

fn any_in_row(p: &Vec<(BoardLocation, Tile)>, y: usize) -> (r: bool)
    ensures
        r == has_row(p@, y as int),
{
    let mut k: usize = 0;
    while k < p.len()
        invariant
            k <= p@.len(),
            forall|j: int| 0 <= j < k ==> #[trigger] p@[j].0.y != y,
        decreases p@.len() - k,
    {
        if p[k].0.y == y {
            return true;
        }
        k = k + 1;
    }
    false
}

fn any_in_column(p: &Vec<(BoardLocation, Tile)>, x: usize) -> (r: bool)
    ensures
        r == has_column(p@, x as int),
{
    let mut k: usize = 0;
    while k < p.len()
        invariant
            k <= p@.len(),
            forall|j: int| 0 <= j < k ==> #[trigger] p@[j].0.x != x,
        decreases p@.len() - k,
    {
        if p[k].0.x == x {
            return true;
        }
        k = k + 1;
    }
    false
}

/// A placement that passed validation. It can only be built by `Word::new`.
#[derive(Clone, Debug)]
pub struct Word {
    tiles: Vec<(BoardLocation, Tile)>,
}

impl View for Word {
    type V = Seq<(BoardLocation, Tile)>;

    closed spec fn view(&self) -> Seq<(BoardLocation, Tile)> {
        self.tiles@
    }
}

impl Word {
    /// Validates `placements` against `board`. The checks run pair by pair, in
    /// order; for each pair: the pairs so far share a column or a row, its square
    /// holds no tile, and it has a neighbour along that line. The first failure is
    /// returned; on success the word holds `placements` unchanged.
    ///
    /// An opening move gets no exemption: on an empty board a lone tile has no
    /// neighbour, so the first word must hold at least two adjacent tiles.
    pub fn new(placements: Vec<(BoardLocation, Tile)>, board: &Board) -> (r: Result<
        Word,
        WordError,
    >)
        requires
            board.wf(),
        ensures
            r is Ok <==> rejection(placements@, *board) is None,
            r is Ok ==> r->Ok_0@ == placements@,
            r is Err ==> rejection(placements@, *board) == Some(r->Err_0),
    {
        if placements.len() == 0 {
            return Err(WordError::EmptyPlacement);
        }
        let ghost p = placements@;
        let first = placements[0].0;
        let mut valid_x = true;
        let mut valid_y = true;
        let mut i: usize = 0;
        while i < placements.len()
            invariant
                p == placements@,
                p.len() > 0,
                first == p[0].0,
                i <= p.len(),
                valid_x == same_column_through(p, i - 1),
                valid_y == same_row_through(p, i - 1),
                forall|k: int| 0 <= k < i ==> #[trigger] placement_error(p, *board, k) is None,
                board.wf(),
            decreases p.len() - i,
        {
            let loc = placements[i].0;
            if valid_x && first.x != loc.x {
                valid_x = false;
            }
            if valid_y && first.y != loc.y {
                valid_y = false;
            }
            assert(valid_x == same_column_through(p, i as int));
            assert(valid_y == same_row_through(p, i as int));
            if !valid_x && !valid_y {
                proof {
                    lemma_first_error_skip(p, *board, 0, i as int);
                }
                return Err(WordError::NotCollinear);
            }
            match board.get_square(&BoardLocation { x: loc.x, y: loc.y }) {
                Some(sq) => match sq.tile {
                    Some(_) => {
                        proof {
                            lemma_first_error_skip(p, *board, 0, i as int);
                        }
                        return Err(WordError::SquareOccupied);
                    },
                    None => {},
                },
                None => {},
            }
            let mut valid_adjacency = false;
            if valid_x {
                let above = loc.y > 0 && (any_in_row(&placements, loc.y - 1) || board.has_square(
                    &BoardLocation { x: loc.x, y: loc.y - 1 },
                ));
                let below = loc.y < usize::MAX && (any_in_row(&placements, loc.y + 1)
                    || board.has_square(&BoardLocation { x: loc.x, y: loc.y + 1 }));
                if above || below {
                    valid_adjacency = true;
                }
            }
            if valid_y {
                let left = loc.x > 0 && (any_in_column(&placements, loc.x - 1) || board.has_square(
                    &BoardLocation { x: loc.x - 1, y: loc.y },
                ));
                let right = loc.x < usize::MAX && (any_in_column(&placements, loc.x + 1)
                    || board.has_square(&BoardLocation { x: loc.x + 1, y: loc.y }));
                if left || right {
                    valid_adjacency = true;
                }
            }
            assert(valid_adjacency == supported(p, *board, i as int));
            if !valid_adjacency {
                proof {
                    lemma_first_error_skip(p, *board, 0, i as int);
                }
                return Err(WordError::NotAdjacent);
            }
            i = i + 1;
        }
        proof {
            lemma_first_error_skip(p, *board, 0, p.len() as int);
        }
        Ok(Word { tiles: placements })
    }

    /// The validated pairs, in the order they were proposed.
    pub fn tiles(&self) -> (r: &Vec<(BoardLocation, Tile)>)
        ensures
            r@ == self@,
    {
        &self.tiles
    }
}

} // verus!
