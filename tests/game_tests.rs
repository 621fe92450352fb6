use scrabble::bag::Bag;
use scrabble::board::{Board, BoardLocation, Tile};
use scrabble::game::{Game, TurnAction};
use scrabble::player::Player;

fn tiles_on_board(board: &Board) -> usize {
    let mut n = 0;
    for y in 0..25 {
        for x in 0..25 {
            if board.has_square(&BoardLocation { x, y }) {
                n += 1;
            }
        }
    }
    n
}

fn total(game: &Game, players: &[Player]) -> usize {
    game.bag.contents.len()
        + tiles_on_board(&game.board)
        + players.iter().map(|p| p.hand.len()).sum::<usize>()
}

#[test]
fn new_game_has_full_bag_and_empty_board() {
    let game = Game::new();
    assert_eq!(game.bag.contents.len(), 100);
    assert_eq!(tiles_on_board(&game.board), 0);
}

#[test]
fn tiles_are_conserved_across_moves() {
    let mut game = Game::new();
    let mut players: Vec<Player> = Vec::new();
    for _ in 0..4 {
        players.push(Player::new(&mut game));
    }
    assert_eq!(total(&game, &players), 100);
    assert_eq!(game.bag.contents.len(), 72);

    game.discard_tiles(&mut players[0], vec![0, 1, 2]);
    assert_eq!(players[0].hand.len(), 7);
    assert_eq!(total(&game, &players), 100);

    game.place_from_hand(&mut players[1], 0, &BoardLocation { x: 12, y: 12 });
    game.place_from_hand(&mut players[1], 0, &BoardLocation { x: 12, y: 13 });
    assert_eq!(players[1].hand.len(), 5);
    assert_eq!(tiles_on_board(&game.board), 2);
    assert_eq!(total(&game, &players), 100);

    game.refill_hand(&mut players[1]);
    assert_eq!(players[1].hand.len(), 7);
    assert_eq!(game.bag.contents.len(), 70);
    assert_eq!(total(&game, &players), 100);
}

#[test]
fn place_from_hand_moves_that_tile() {
    let mut game = Game::new();
    let mut player = Player {
        hand: vec![Tile { letter: 'A', value: 1 }, Tile { letter: 'K', value: 5 }],
        score: 0,
    };
    game.place_from_hand(&mut player, 1, &BoardLocation { x: 3, y: 0 });
    assert_eq!(player.hand, vec![Tile { letter: 'A', value: 1 }]);
    let sq = game.board.get_square(&BoardLocation { x: 3, y: 0 }).unwrap();
    assert_eq!(sq.tile, Some(Tile { letter: 'K', value: 5 }));
    assert_eq!(game.bag.contents.len(), 100);
}

#[test]
fn refill_from_short_bag() {
    let mut game = Game { board: Board::new(), bag: Bag::new(true) };
    game.bag.return_tiles(vec![Tile { letter: 'O', value: 1 }, Tile { letter: 'X', value: 8 }]);
    let mut player = Player { hand: vec![Tile { letter: 'A', value: 1 }], score: 0 };
    game.refill_hand(&mut player);
    assert_eq!(player.hand.len(), 3);
    assert_eq!(player.hand[0], Tile { letter: 'A', value: 1 });
    assert!(game.bag.contents.is_empty());
}

#[test]
fn refill_full_hand_draws_nothing() {
    let mut game = Game::new();
    let mut player = Player::new(&mut game);
    let hand = player.hand.clone();
    game.refill_hand(&mut player);
    assert_eq!(player.hand, hand);
    assert_eq!(game.bag.contents.len(), 93);
}

#[test]
fn discard_returns_tiles_to_bag() {
    let mut game = Game { board: Board::new(), bag: Bag::new(true) };
    let mut player = Player {
        hand: vec![Tile { letter: 'A', value: 1 }, Tile { letter: 'B', value: 3 }],
        score: 2,
    };
    game.discard_tiles(&mut player, vec![1]);
    // The bag held only the discarded tile, so the refill draws it back.
    assert_eq!(
        player.hand,
        vec![Tile { letter: 'A', value: 1 }, Tile { letter: 'B', value: 3 }]
    );
    assert!(game.bag.contents.is_empty());
    assert_eq!(player.score, 2);
}

#[test]
fn turn_actions_carry_their_payload() {
    let action = TurnAction::DiscardTiles(vec![0, 2]);
    match action {
        TurnAction::DiscardTiles(ix) => assert_eq!(ix, vec![0, 2]),
        TurnAction::PlayWord(_) => panic!("wrong action"),
    }
}
