//! A chess engine core: tapered piece-square evaluation, move ordering,
//! a transposition table, repetition tracking, a time manager and an
//! iterative-deepening alpha-beta search, over the `chess` crate's boards.
pub mod board;
pub mod eval;
pub mod tt;
pub mod history;
pub mod time;
pub mod ordering;
pub mod stats;
pub mod engine;
