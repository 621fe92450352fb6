//! A player's hand and score.

use vstd::prelude::*;
use crate::board::{Board, BoardLocation, Tile};
use crate::game::Game;
use crate::word::Word;

verus! {

broadcast use {vstd::seq_lib::group_to_multiset_ensures, vstd::multiset::group_multiset_axioms};

/// Number of tiles a full hand holds.
pub const HAND_SIZE: usize = 7;

/// Whether hand position `i` is listed in `indexes`.
pub open spec fn picked(indexes: Seq<usize>, i: int) -> bool {
    exists|k: int| 0 <= k < indexes.len() && #[trigger] indexes[k] as int == i
}

/// The tiles of `hand` from position `i` on whose positions are not listed,
/// in hand order.
pub open spec fn kept_from(hand: Seq<Tile>, indexes: Seq<usize>, i: int) -> Seq<Tile>
    decreases hand.len() - i,
{
    if i < 0 || i >= hand.len() {
        Seq::empty()
    } else if picked(indexes, i) {
        kept_from(hand, indexes, i + 1)
    } else {
        seq![hand[i]] + kept_from(hand, indexes, i + 1)
    }
}

/// The tiles of `hand` from position `i` on whose positions are listed, from
/// the highest position down.
pub open spec fn removed_from(hand: Seq<Tile>, indexes: Seq<usize>, i: int) -> Seq<Tile>
    decreases hand.len() - i,
{
    if i < 0 || i >= hand.len() {
        Seq::empty()
    } else if picked(indexes, i) {
        removed_from(hand, indexes, i + 1).push(hand[i])
    } else {
        removed_from(hand, indexes, i + 1)
    }
}

/// Sum of the point values of the tiles of a placement.
pub open spec fn face_value(p: Seq<(BoardLocation, Tile)>) -> nat
    decreases p.len(),
{
    if p.len() == 0 {
        0
    } else {
        face_value(p.drop_last()) + p.last().1.value as nat
    }
}

fn lists_index(indexes: &Vec<usize>, i: usize) -> (r: bool)
    ensures
        r == picked(indexes@, i as int),
{
    let mut k: usize = 0;
    while k < indexes.len()
        invariant
            k <= indexes@.len(),
            forall|j: int| 0 <= j < k ==> #[trigger] indexes@[j] != i,
        decreases indexes@.len() - k,
    {
        if indexes[k] == i {
            return true;
        }
        k = k + 1;
    }
    false
}

/// A player: the tiles in hand, in order, and the score so far.
#[derive(Clone, Debug)]
pub struct Player {
    pub hand: Vec<Tile>,
    pub score: usize,
}

impl Player {
    /// A player with score 0 whose hand is drawn from the game's bag: a full
    /// hand, or what the bag holds if it holds less.
    pub fn new(game: &mut Game) -> (player: Player)
        ensures
            player.score == 0,
            player.hand@.len() == if HAND_SIZE < old(game).bag.contents@.len() {
                HAND_SIZE as int
            } else {
                old(game).bag.contents@.len() as int
            },
            old(game).bag.contents@.to_multiset() =~= final(game).bag.contents@.to_multiset().add(
                player.hand@.to_multiset(),
            ),
            final(game).board == old(game).board,
            final(game).tile_total(player.hand@) == old(game).tile_total(Seq::empty()),
    {
        let mut new_player = Player { score: 0, hand: Vec::new() };
        new_player.hand = game.bag.draw_tiles(HAND_SIZE);
        new_player
    }

    /// Scores a validated word: the score grows by the sum of the word's tile
    /// values. This scoring rule reads no square modifiers, so the board is not
    /// consulted. Hand and board are left to the caller, which commits the word
    /// (`Game::place_from_hand` for each tile).
    pub fn play_word(&mut self, word: &Word, _board: &Board)
        requires
            old(self).score + face_value(word@) <= usize::MAX,
        ensures
            final(self).score == old(self).score + face_value(word@),
            final(self).hand == old(self).hand,
    {
        let tiles = word.tiles();
        let mut total: usize = 0;
        let mut k: usize = 0;
        while k < tiles.len()
            invariant
                k <= tiles@.len(),
                tiles@ == word@,
                total == face_value(tiles@.subrange(0, k as int)),
                old(self).score + face_value(word@) <= usize::MAX,
                self.score == old(self).score,
            decreases tiles@.len() - k,
        {
            proof {
                assert(tiles@.subrange(0, k + 1).drop_last() =~= tiles@.subrange(0, k as int));
                lemma_face_value_prefix(tiles@, k + 1);
            }
            total = total + tiles[k].1.value;
            k = k + 1;
        }
        assert(tiles@.subrange(0, k as int) =~= tiles@);
        self.score = self.score + total;
    }

    /// Removes the hand tiles at the listed positions and returns them, from the
    /// highest position down. Positions past the end of the hand, and repeats,
    /// are skipped; the other tiles keep their order.
    pub fn remove_tiles(&mut self, indexes: Vec<usize>) -> (removed: Vec<Tile>)
        ensures
            final(self).hand@ == kept_from(old(self).hand@, indexes@, 0),
            removed@ == removed_from(old(self).hand@, indexes@, 0),
            old(self).hand@.to_multiset() =~= final(self).hand@.to_multiset().add(
                removed@.to_multiset(),
            ),
            final(self).hand@.len() + removed@.len() == old(self).hand@.len(),
            final(self).score == old(self).score,
    {
        let ghost h = self.hand@;
        let mut removed: Vec<Tile> = Vec::new();
        let mut i: usize = self.hand.len();
        assert(h.subrange(0, i as int) + kept_from(h, indexes@, i as int) =~= h);
        while i > 0
            invariant
                i <= h.len(),
                self.hand@ == h.subrange(0, i as int) + kept_from(h, indexes@, i as int),
                removed@ == removed_from(h, indexes@, i as int),
                h.to_multiset() =~= self.hand@.to_multiset().add(removed@.to_multiset()),
                self.hand@.len() + removed@.len() == h.len(),
                self.score == old(self).score,
            decreases i,
        {
            i = i - 1;
            let ghost rest = kept_from(h, indexes@, i + 1);
            assert(h.subrange(0, i + 1) =~= h.subrange(0, i as int).push(h[i as int]));
            if lists_index(&indexes, i) {
                let ghost before = self.hand@;
                assert(before.remove(i as int) =~= h.subrange(0, i as int) + rest);
                let t = self.hand.remove(i);
                assert(before.to_multiset().count(t) > 0);
                removed.push(t);
            } else {
                assert(h.subrange(0, i + 1) + rest =~= h.subrange(0, i as int) + (seq![h[i as int]]
                    + rest));
            }
        }
        assert(h.subrange(0, 0) + kept_from(h, indexes@, 0) =~= kept_from(h, indexes@, 0));
        removed
    }
}

proof fn lemma_face_value_prefix(p: Seq<(BoardLocation, Tile)>, n: int)
    requires
        0 <= n <= p.len(),
    ensures
        face_value(p.subrange(0, n)) <= face_value(p),
    decreases p.len() - n,
{
    if n < p.len() {
        lemma_face_value_prefix(p, n + 1);
        assert(p.subrange(0, n + 1).drop_last() =~= p.subrange(0, n));
    } else {
        assert(p.subrange(0, n) =~= p);
    }
}

} // verus!
