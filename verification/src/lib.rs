//! Terminal parlour games and a shopping list, with their rules proved.
//!
//! The library decides and words everything; what reads lines and prints
//! text stays with its caller. Each module holds one part:
//!
//! - `board`: the tic-tac-toe board, its moves and its classification;
//! - `round`: a round of tic-tac-toe against an opponent who moves at random;
//! - `guess`: guess the number, with eight tries;
//! - `shopping`: the shopping list;
//! - `menu`: the menus and what their choices set going;
//! - `input`: numbers read from typed lines;
//! - `text`: pieces of screen text shared by the views;
//! - `chance`: the calls into the `rand` crate.

pub mod board;
pub mod chance;
pub mod guess;
pub mod input;
pub mod menu;
pub mod round;
pub mod shopping;
pub mod text;
