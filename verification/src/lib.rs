//! A Connect Four engine: the board of 6 rows and 7 columns with its gravity
//! rule, the detection of finished games, a heuristic evaluation of positions
//! and a depth-limited minimax search over them.
//!
//! Rows count from 0 at the top, columns from 0 at the left. `X` is the side
//! whose advantage scores positive: a maximizing search moves for `X`, a
//! minimizing one for `O`.
//!
//! - [`cell`] and [`grid`] hold the model: what a cell is, and what dropping
//!   and removing pieces means on a sequence of 42 cells.
//! - [`board`] is the board itself, with drop, undo and the legal moves.
//! - [`window`], [`terminal`] and [`evaluate`] look at the runs of four
//!   cells: whether one is a line, and what all of them are worth.
//! - [`search`] is minimax, scoring the moves in parallel or one by one.
//! - [`game`] holds the rules of play in slots 1 to 7, [`table`] and
//!   [`render`] turn a board into text for the terminal.
//!
//! Four functions call other crates and are believed, not proved: the
//! random fallback move, the parallel map over the moves, the drawing of a
//! table and the writing of large letters. Everything else is verified.

pub mod board;
pub mod cell;
pub mod evaluate;
pub mod game;
pub mod grid;
mod parallel;
mod random;
pub mod render;
pub mod search;
pub mod table;
pub mod terminal;
pub mod window;
