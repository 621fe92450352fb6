//! The tile bag: an unordered supply of tiles, drawn from at random without
//! replacement.

use vstd::prelude::*;
use rand::Rng;
use crate::board::Tile;

verus! {

broadcast use {vstd::seq_lib::group_to_multiset_ensures, vstd::multiset::group_multiset_axioms};

/// The standard supply: (letter, value, count) for each kind of tile; the first
/// row is the blank.
pub open spec fn default_table() -> Seq<(char, usize, usize)> {
    seq![
        (' ', 0usize, 2usize),
        ('E', 1, 12),
        ('A', 1, 9),
        ('I', 1, 9),
        ('O', 1, 8),
        ('N', 1, 6),
        ('R', 1, 6),
        ('T', 1, 6),
        ('L', 1, 4),
        ('S', 1, 4),
        ('U', 1, 4),
        ('D', 2, 4),
        ('G', 2, 3),
        ('B', 3, 2),
        ('C', 3, 2),
        ('M', 3, 2),
        ('P', 3, 2),
        ('F', 4, 2),
        ('H', 4, 2),
        ('V', 4, 2),
        ('W', 4, 2),
        ('Y', 4, 2),
        ('K', 5, 1),
        ('J', 8, 1),
        ('X', 8, 1),
        ('Q', 10, 1),
        ('Z', 10, 1),
    ]
}

/// `n` copies of the tile `(letter, value)`.
pub open spec fn copies(letter: char, value: usize, n: nat) -> Seq<Tile>
    decreases n,
{
    if n == 0 {
        Seq::empty()
    } else {
        copies(letter, value, (n - 1) as nat).push(Tile { letter, value })
    }
}

/// The tiles that the first `n` rows of a (letter, value, count) table
/// describe, row after row.
pub open spec fn expand_rows(t: Seq<(char, usize, usize)>, n: int) -> Seq<Tile>
    decreases n,
{
    if n <= 0 {
        Seq::empty()
    } else {
        expand_rows(t, n - 1) + copies(t[n - 1].0, t[n - 1].1, t[n - 1].2 as nat)
    }
}

/// The number of tiles that the first `n` rows of a table describe.
pub open spec fn count_rows(t: Seq<(char, usize, usize)>, n: int) -> int
    decreases n,
{
    if n <= 0 {
        0
    } else {
        count_rows(t, n - 1) + t[n - 1].2
    }
}

/// The tiles of a full bag.
pub open spec fn default_supply() -> Seq<Tile> {
    expand_rows(default_table(), default_table().len() as int)
}

proof fn lemma_copies_len(letter: char, value: usize, n: nat)
    ensures
        copies(letter, value, n).len() == n,
    decreases n,
{
    if n > 0 {
        lemma_copies_len(letter, value, (n - 1) as nat);
    }
}

proof fn lemma_expand_rows_len(t: Seq<(char, usize, usize)>, n: int)
    ensures
        expand_rows(t, n).len() == if n <= 0 {
            0
        } else {
            count_rows(t, n)
        },
    decreases n,
{
    if n > 0 {
        lemma_expand_rows_len(t, n - 1);
        lemma_copies_len(t[n - 1].0, t[n - 1].1, t[n - 1].2 as nat);
    }
}

/// The standard supply holds one hundred tiles, of 27 kinds.
pub proof fn lemma_default_supply_len()
    ensures
        default_table().len() == 27,
        default_supply().len() == 100,
{
    lemma_expand_rows_len(default_table(), 27);
    reveal_with_fuel(count_rows, 28);
}

fn default_rows() -> (r: Vec<(char, usize, usize)>)
    ensures
        r@ == default_table(),
{
    let r = vec![
        (' ', 0usize, 2usize),
        ('E', 1, 12),
        ('A', 1, 9),
        ('I', 1, 9),
        ('O', 1, 8),
        ('N', 1, 6),
        ('R', 1, 6),
        ('T', 1, 6),
        ('L', 1, 4),
        ('S', 1, 4),
        ('U', 1, 4),
        ('D', 2, 4),
        ('G', 2, 3),
        ('B', 3, 2),
        ('C', 3, 2),
        ('M', 3, 2),
        ('P', 3, 2),
        ('F', 4, 2),
        ('H', 4, 2),
        ('V', 4, 2),
        ('W', 4, 2),
        ('Y', 4, 2),
        ('K', 5, 1),
        ('J', 8, 1),
        ('X', 8, 1),
        ('Q', 10, 1),
        ('Z', 10, 1),
    ];
    assert(r@ =~= default_table());
    r
}

/// Relies on rand's `thread_rng().gen_range(0, bound)`: a number in
/// `[0, bound)`; it panics when `bound` is 0, which `requires` excludes.
#[verifier::external_body]
fn random_below(bound: usize) -> (r: usize)
    requires
        0 < bound,
    ensures
        r < bound,
{
    rand::thread_rng().gen_range(0, bound)
}

/// A multiset of tiles, held in a `Vec` whose order carries no meaning.
#[derive(Clone, Debug)]
pub struct Bag {
    pub contents: Vec<Tile>,
}

impl Bag {
    /// An empty bag when `empty`, else a bag with the standard supply.
    pub fn new(empty: bool) -> (bag: Bag)
        ensures
            empty ==> bag.contents@ == Seq::<Tile>::empty(),
            !empty ==> bag.contents@ == default_supply(),
            !empty ==> bag.contents@.len() == 100,
    {
        let mut bag = Bag { contents: Vec::new() };
        proof {
            lemma_default_supply_len();
        }
        if !empty {
            let rows = default_rows();
            let mut i: usize = 0;
            while i < rows.len()
                invariant
                    i <= rows@.len(),
                    bag.contents@ == expand_rows(rows@, i as int),
                decreases rows@.len() - i,
            {
                let row = rows[i];
                let letter: char = row.0;
                let value: usize = row.1;
                let count: usize = row.2;
                let mut c: usize = 0;
                assert(bag.contents@ =~= expand_rows(rows@, i as int) + copies(letter, value, 0));
                while c < count
                    invariant
                        i < rows@.len(),
                        rows@[i as int] == (letter, value, count),
                        c <= count,
                        bag.contents@ == expand_rows(rows@, i as int) + copies(
                            letter,
                            value,
                            c as nat,
                        ),
                    decreases count - c,
                {
                    bag.contents.push(Tile { letter, value });
                    c = c + 1;
                }
                i = i + 1;
            }
        }
        bag
    }

    /// Takes the tile at `index` out of the bag.
    pub fn take_tile(&mut self, index: usize) -> (t: Tile)
        requires
            index < old(self).contents@.len(),
        ensures
            t == old(self).contents@[index as int],
            final(self).contents@ == old(self).contents@.remove(index as int),
    {
        self.contents.remove(index)
    }

    /// Draws `count` tiles, or all the bag holds if it holds fewer. Each tile is
    /// picked uniformly among those still in the bag and taken out of it.
    pub fn draw_tiles(&mut self, count: usize) -> (drawn: Vec<Tile>)
        ensures
            drawn@.len() == if count < old(self).contents@.len() {
                count as int
            } else {
                old(self).contents@.len() as int
            },
            final(self).contents@.len() + drawn@.len() == old(self).contents@.len(),
            old(self).contents@.to_multiset() =~= final(self).contents@.to_multiset().add(
                drawn@.to_multiset(),
            ),
    {
        let ghost start = self.contents@;
        let mut chosen: Vec<Tile> = Vec::new();
        while chosen.len() < count && self.contents.len() > 0
            invariant
                chosen@.len() <= count,
                chosen@.len() + self.contents@.len() == start.len(),
                start.to_multiset() =~= self.contents@.to_multiset().add(chosen@.to_multiset()),
            decreases self.contents@.len(),
        {
            let index = random_below(self.contents.len());
            let ghost before = self.contents@;
            let t = self.take_tile(index);
            assert(before.to_multiset().count(t) > 0);
            chosen.push(t);
        }
        chosen
    }

    /// Puts `tiles` back into the bag.
    pub fn return_tiles(&mut self, tiles: Vec<Tile>)
        ensures
            final(self).contents@ == old(self).contents@ + tiles@,
            final(self).contents@.to_multiset() =~= old(self).contents@.to_multiset().add(
                tiles@.to_multiset(),
            ),
    {
        let ghost added = tiles@;
        let mut tiles = tiles;
        self.contents.append(&mut tiles);
        proof {
            vstd::seq_lib::lemma_multiset_commutative(old(self).contents@, added);
        }
    }
}

} // verus!
