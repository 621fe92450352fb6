//! Rules engine for a tile-placement word game: the board, the tile bag,
//! the placement validator and the players' hands.

pub mod board;
pub mod word;
pub mod bag;
pub mod game;
pub mod player;
pub mod render;
