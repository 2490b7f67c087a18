//! Conway's Game of Life on a bounded, non-wrapping board.
//!
//! The board is a row-major sequence of cells whose shape is fixed by a
//! [`Gol`] settings record. Every function carries a contract over the
//! mathematical model of the board, a `Seq<bool>`.

pub mod config;
pub mod grid;
pub mod neighbors;
mod parallel;
pub mod engine;
pub mod interaction;
pub mod pacer;
pub mod render;
pub mod seed;
pub mod parse;
pub mod patterns;
