//! Minesweeper game logic: the board, the rules of play, the timer, the
//! preferences, the sprite-sheet decoder and the window layout, with their
//! contracts proved by Verus.

pub mod bmp;
pub mod census;
pub mod board;
pub mod geometry;
pub mod grafix;
pub mod help;
pub mod laws;
pub mod placement;
pub mod pref;
pub mod rtns;
pub mod sound;
pub mod util;
pub mod window;
