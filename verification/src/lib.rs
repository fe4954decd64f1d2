//! A two-player word-tile board game: tiles, racks, the board with its
//! selection, the tile bag and word scoring.

pub mod bag;
pub mod board;
pub mod dictionary;
pub mod error;
pub mod game;
pub mod player;
pub mod screens;
pub mod squares;
pub mod table;
pub mod tile;
