//! Luckybox: a two-player dice game on 3x3 grids, with a verified engine.
//!
//! Each player owns a grid of three columns and three rows. A turn places one
//! die roll into the lowest empty row of a chosen column. The game is over as
//! soon as one grid is full; a column scores each of its values once for every
//! slot of the column that holds the same value.

pub mod dice;
pub mod game;
pub mod input;
pub mod player;
pub mod score;
