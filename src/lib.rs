//! SquareTap: a timed reaction game on a four by four grid, with its
//! round engine, its random placement policy and its table of best scores.

pub mod dice;
pub mod game;
pub mod grid;
pub mod highscore;
pub mod pattern;
pub mod saves;
pub mod settings;
