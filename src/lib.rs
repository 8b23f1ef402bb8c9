//! A Sokoban-style puzzle engine: tiles, a square grid, a level decoder and
//! the state machine that moves the player and pushes boxes.

pub mod tile;
pub mod grid;
pub mod level;
pub mod game;
pub mod input;
