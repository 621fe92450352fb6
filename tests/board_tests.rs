use scrabble::board::{Board, BoardLocation, SquareModifier, Tile, BOARD_HEIGHT, BOARD_WIDTH};

fn loc(x: usize, y: usize) -> BoardLocation {
    BoardLocation { x, y }
}

#[test]
fn new_board_is_empty_with_corner_modifier() {
    let board = Board::new();
    let corner = board.get_square(&loc(0, 0)).unwrap();
    assert!(corner.tile.is_none());
    assert_eq!(corner.modifier, Some(SquareModifier::TripleWord));
    for y in 0..BOARD_HEIGHT {
        for x in 0..BOARD_WIDTH {
            let sq = board.get_square(&loc(x, y)).unwrap();
            assert!(sq.tile.is_none());
            if x != 0 || y != 0 {
                assert!(sq.modifier.is_none());
            }
        }
    }
}

#[test]
fn out_of_range_square_is_absent() {
    let board = Board::new();
    assert!(board.get_square(&loc(30, 0)).is_none());
    assert!(board.get_square(&loc(0, 30)).is_none());
    assert!(board.get_square(&loc(25, 24)).is_none());
    assert!(board.get_square(&loc(24, 25)).is_none());
    assert!(board.get_square(&loc(usize::MAX, usize::MAX)).is_none());
    assert!(board.get_square(&loc(24, 24)).is_some());
}

#[test]
fn has_square_tracks_placed_tiles() {
    let mut board = Board::new();
    assert!(!board.has_square(&loc(3, 4)));
    board.place_tile(&loc(3, 4), Tile { letter: 'C', value: 3 });
    assert!(board.has_square(&loc(3, 4)));
    assert!(!board.has_square(&loc(4, 3)));
    assert!(!board.has_square(&loc(30, 4)));
    let sq = board.get_square(&loc(3, 4)).unwrap();
    assert_eq!(sq.tile, Some(Tile { letter: 'C', value: 3 }));
}

#[test]
fn place_tile_keeps_modifier() {
    let mut board = Board::new();
    board.place_tile(&loc(0, 0), Tile { letter: 'Z', value: 10 });
    let sq = board.get_square(&loc(0, 0)).unwrap();
    assert_eq!(sq.tile, Some(Tile { letter: 'Z', value: 10 }));
    assert_eq!(sq.modifier, Some(SquareModifier::TripleWord));
}

#[test]
fn render_empty_board() {
    let board = Board::new();
    let text = board.render();
    let lines: Vec<&str> = text.split('\n').collect();
    assert_eq!(lines.len(), 1 + 2 * BOARD_HEIGHT);
    let mut header = String::from("  ");
    for x in 0..BOARD_WIDTH {
        header.push_str(&format!("|{:2}", x + 1));
    }
    assert_eq!(lines[0], header);
    assert!(lines[0].starts_with("  | 1| 2| 3"));
    assert!(lines[0].ends_with("|24|25"));
    let mut sep = String::from("--");
    for _ in 0..BOARD_WIDTH {
        sep.push_str("+--");
    }
    assert_eq!(lines[1], sep);
    let mut first_row = String::from(" A|TW");
    for _ in 1..BOARD_WIDTH {
        first_row.push_str("|  ");
    }
    assert_eq!(lines[2], first_row);
    assert!(lines[4].starts_with(" B|  |"));
    assert!(lines[2 * BOARD_HEIGHT].starts_with(" Y|"));
}

#[test]
fn render_shows_tile_letter_and_value() {
    let mut board = Board::new();
    board.place_tile(&loc(1, 0), Tile { letter: 'Q', value: 10 });
    board.place_tile(&loc(0, 1), Tile { letter: 'E', value: 1 });
    board.place_tile(&loc(2, 1), Tile { letter: ' ', value: 0 });
    let text = board.render();
    let lines: Vec<&str> = text.split('\n').collect();
    assert!(lines[2].starts_with(" A|TW|Q10|  |"));
    assert!(lines[4].starts_with(" B|E1|  | 0|  |"));
}
