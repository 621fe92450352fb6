//! The shared state of one game, and the moves that carry tiles between the
//! bag, the board and a player's hand.

use vstd::prelude::*;
use crate::bag::{Bag, default_supply};
use crate::board::{Board, BoardLocation, Tile, Square, cell_index, in_bounds, modifier_at};
use crate::player::{Player, HAND_SIZE, kept_from};
use crate::word::Word;

verus! {

broadcast use {vstd::seq_lib::group_to_multiset_ensures, vstd::multiset::group_multiset_axioms};

/// Number of tiles in all the hands together.
pub open spec fn hands_total(hands: Seq<Seq<Tile>>) -> int
    decreases hands.len(),
{
    if hands.len() == 0 {
        0
    } else {
        hands_total(hands.drop_last()) + hands.last().len()
    }
}

proof fn lemma_hands_total_update(hands: Seq<Seq<Tile>>, i: int, h: Seq<Tile>)
    requires
        0 <= i < hands.len(),
    ensures
        hands_total(hands.update(i, h)) == hands_total(hands) - hands[i].len() + h.len(),
    decreases hands.len(),
{
    let u = hands.update(i, h);
    if i == hands.len() - 1 {
        assert(u.drop_last() =~= hands.drop_last());
    } else {
        lemma_hands_total_update(hands.drop_last(), i, h);
        assert(u.drop_last() =~= hands.drop_last().update(i, h));
    }
}

/// Conservation over all players: when a move of player `i` keeps the tiles of
/// bag, board and that player's hand at the same total (as `Player::new`,
/// `Game::refill_hand`, `Game::discard_tiles` and `Game::place_from_hand`
/// each ensure), the tiles of bag, board and every hand keep their total too.
pub proof fn lemma_move_conserves_tiles(
    before: Game,
    after: Game,
    hands: Seq<Seq<Tile>>,
    i: int,
    new_hand: Seq<Tile>,
)
    requires
        0 <= i < hands.len(),
        after.tile_total(new_hand) == before.tile_total(hands[i]),
    ensures
        after.all_tiles(hands.update(i, new_hand)) == before.all_tiles(hands),
{
    lemma_hands_total_update(hands, i, new_hand);
}

/// Conservation when a player joins: `Player::new` keeps the total of bag,
/// board and the new hand equal to that of bag and board before, so the tiles
/// of bag, board and every hand, the new one included, keep their total.
pub proof fn lemma_join_conserves_tiles(
    before: Game,
    after: Game,
    hands: Seq<Seq<Tile>>,
    new_hand: Seq<Tile>,
)
    requires
        after.tile_total(new_hand) == before.tile_total(Seq::empty()),
    ensures
        after.all_tiles(hands.push(new_hand)) == before.all_tiles(hands),
{
    assert(hands.push(new_hand).drop_last() =~= hands);
}

/// What a player does on a turn.
pub enum TurnAction {
    /// Play a validated word.
    PlayWord(Word),
    /// Give back the hand tiles at these positions.
    DiscardTiles(Vec<usize>),
}

/// One board and one bag, shared by the players in turn.
#[derive(Clone, Debug)]
pub struct Game {
    pub board: Board,
    pub bag: Bag,
}

impl Game {
    /// Tiles in the bag, on the board and in `hand`, counted together.
    pub open spec fn tile_total(&self, hand: Seq<Tile>) -> int {
        (self.bag.contents@.len() + self.board.tile_count() + hand.len()) as int
    }

    /// Tiles in the bag, on the board and in all of `hands`, counted together.
    pub open spec fn all_tiles(&self, hands: Seq<Seq<Tile>>) -> int {
        self.bag.contents@.len() + self.board.tile_count() + hands_total(hands)
    }

    /// A fresh board and a full bag.
    pub fn new() -> (game: Game)
        ensures
            game.board.wf(),
            game.board.tile_count() == 0,
            forall|x: int, y: int|
                in_bounds(x, y) ==> #[trigger] game.board.square(x, y) == (Square {
                    tile: None,
                    modifier: modifier_at(x, y),
                }),
            game.bag.contents@ == default_supply(),
    {
        Game { board: Board::new(), bag: Bag::new(false) }
    }
    /// Tops `player`'s hand up to a full hand with tiles drawn from the bag, or
    /// with all the bag holds if that is less. Tiles only move from the bag to
    /// the hand: their total with the board's is unchanged.
    pub fn refill_hand(&mut self, player: &mut Player)
        ensures
            final(player).hand@.subrange(0, old(player).hand@.len() as int) == old(player).hand@,
            final(player).hand@.len() == if old(player).hand@.len() >= HAND_SIZE {
                old(player).hand@.len() as int
            } else if HAND_SIZE - old(player).hand@.len() < old(self).bag.contents@.len() {
                HAND_SIZE as int
            } else {
                (old(player).hand@.len() + old(self).bag.contents@.len()) as int
            },
            old(self).bag.contents@.to_multiset().add(old(player).hand@.to_multiset())
                =~= final(self).bag.contents@.to_multiset().add(final(player).hand@.to_multiset()),
            final(self).tile_total(final(player).hand@) == old(self).tile_total(old(player).hand@),
            final(self).board == old(self).board,
            final(player).score == old(player).score,
    {
        if player.hand.len() < HAND_SIZE {
            let mut drawn = self.bag.draw_tiles(HAND_SIZE - player.hand.len());
            let ghost added = drawn@;
            player.hand.append(&mut drawn);
            proof {
                vstd::seq_lib::lemma_multiset_commutative(old(player).hand@, added);
                assert(player.hand@.subrange(0, old(player).hand@.len() as int)
                    =~= old(player).hand@);
            }
        } else {
            assert(player.hand@.subrange(0, old(player).hand@.len() as int) =~= player.hand@);
        }
    }

    /// The discard move: the hand tiles at the listed positions go back into the
    /// bag (see `Player::remove_tiles`), then the hand is refilled from the bag.
    /// The tiles of bag and hand together stay the same, as a multiset.
    pub fn discard_tiles(&mut self, player: &mut Player, indexes: Vec<usize>)
        ensures
            old(self).bag.contents@.to_multiset().add(old(player).hand@.to_multiset())
                =~= final(self).bag.contents@.to_multiset().add(final(player).hand@.to_multiset()),
            final(self).tile_total(final(player).hand@) == old(self).tile_total(old(player).hand@),
            final(player).hand@.subrange(
                0,
                kept_from(old(player).hand@, indexes@, 0).len() as int,
            ) == kept_from(old(player).hand@, indexes@, 0),
            final(self).board == old(self).board,
            final(player).score == old(player).score,
    {
        let removed = player.remove_tiles(indexes);
        self.bag.return_tiles(removed);
        self.refill_hand(player);
    }

    /// Moves the tile at `index` of `player`'s hand onto the empty square at
    /// `location`. The tile leaves the hand and lands on the board: the total of
    /// tiles in bag, board and hand is unchanged.
    pub fn place_from_hand(&mut self, player: &mut Player, index: usize, location: &BoardLocation)
        requires
            old(self).board.wf(),
            in_bounds(location.x as int, location.y as int),
            !old(self).board.occupied(location.x as int, location.y as int),
            index < old(player).hand@.len(),
        ensures
            final(self).board.wf(),
            final(self).board.square(location.x as int, location.y as int).tile == Some(
                old(player).hand@[index as int],
            ),
            final(self).board@ == old(self).board@.update(
                cell_index(location.x as int, location.y as int),
                Square {
                    tile: Some(old(player).hand@[index as int]),
                    modifier: old(self).board.square(location.x as int, location.y as int).modifier,
                },
            ),
            final(player).hand@ == old(player).hand@.remove(index as int),
            final(self).bag == old(self).bag,
            final(self).tile_total(final(player).hand@) == old(self).tile_total(old(player).hand@),
            final(player).score == old(player).score,
    {
        let tile = player.hand.remove(index);
        self.board.place_tile(location, tile);
    }
}

} // verus!
