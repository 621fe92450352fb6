use scrabble::bag::Bag;
use scrabble::board::Tile;

fn sorted(tiles: &[Tile]) -> Vec<(char, usize)> {
    let mut v: Vec<(char, usize)> = tiles.iter().map(|t| (t.letter, t.value)).collect();
    v.sort();
    v
}

fn count_letter(tiles: &[Tile], letter: char) -> usize {
    tiles.iter().filter(|t| t.letter == letter).count()
}

#[test]
fn full_bag_has_standard_supply() {
    let bag = Bag::new(false);
    assert_eq!(bag.contents.len(), 100);
    assert_eq!(count_letter(&bag.contents, ' '), 2);
    assert_eq!(count_letter(&bag.contents, 'E'), 12);
    assert_eq!(count_letter(&bag.contents, 'G'), 3);
    assert_eq!(count_letter(&bag.contents, 'Z'), 1);
    let mut letters: Vec<char> = bag.contents.iter().map(|t| t.letter).collect();
    letters.dedup();
    assert_eq!(letters.len(), 27);
    for t in bag.contents.iter() {
        match t.letter {
            ' ' => assert_eq!(t.value, 0),
            'Q' | 'Z' => assert_eq!(t.value, 10),
            'K' => assert_eq!(t.value, 5),
            _ => {}
        }
    }
}

#[test]
fn empty_bag() {
    let mut bag = Bag::new(true);
    assert!(bag.contents.is_empty());
    assert!(bag.draw_tiles(7).is_empty());
}

#[test]
fn draw_takes_requested_count() {
    let mut bag = Bag::new(false);
    let before = sorted(&bag.contents);
    let drawn = bag.draw_tiles(7);
    assert_eq!(drawn.len(), 7);
    assert_eq!(bag.contents.len(), 93);
    let mut all = bag.contents.clone();
    all.extend(drawn.iter().cloned());
    assert_eq!(sorted(&all), before);
}

#[test]
fn draw_stops_when_bag_runs_out() {
    let mut bag = Bag::new(true);
    bag.return_tiles(vec![
        Tile { letter: 'A', value: 1 },
        Tile { letter: 'B', value: 3 },
        Tile { letter: 'C', value: 3 },
    ]);
    let drawn = bag.draw_tiles(10);
    assert_eq!(drawn.len(), 3);
    assert!(bag.contents.is_empty());
    assert_eq!(sorted(&drawn), vec![('A', 1), ('B', 3), ('C', 3)]);
}

#[test]
fn draw_zero_takes_nothing() {
    let mut bag = Bag::new(false);
    assert!(bag.draw_tiles(0).is_empty());
    assert_eq!(bag.contents.len(), 100);
}

#[test]
fn draw_everything() {
    let mut bag = Bag::new(false);
    let before = sorted(&bag.contents);
    let drawn = bag.draw_tiles(100);
    assert_eq!(drawn.len(), 100);
    assert!(bag.contents.is_empty());
    assert_eq!(sorted(&drawn), before);
}

#[test]
fn return_tiles_appends() {
    let mut bag = Bag::new(true);
    bag.return_tiles(vec![Tile { letter: 'Q', value: 10 }]);
    bag.return_tiles(vec![]);
    bag.return_tiles(vec![Tile { letter: 'E', value: 1 }]);
    assert_eq!(
        bag.contents,
        vec![Tile { letter: 'Q', value: 10 }, Tile { letter: 'E', value: 1 }]
    );
}

#[test]
fn take_tile_removes_that_tile() {
    let mut bag = Bag::new(true);
    bag.return_tiles(vec![
        Tile { letter: 'A', value: 1 },
        Tile { letter: 'B', value: 3 },
        Tile { letter: 'C', value: 3 },
    ]);
    let t = bag.take_tile(1);
    assert_eq!(t, Tile { letter: 'B', value: 3 });
    assert_eq!(bag.contents, vec![Tile { letter: 'A', value: 1 }, Tile { letter: 'C', value: 3 }]);
}
