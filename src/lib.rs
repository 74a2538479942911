//! A two-player tic-tac-toe engine: board state, move validation, win and
//! draw detection, the per-turn decisions of a game loop, and the parsing of a
//! typed move request, all verified. Two small companions sit beside it: a
//! restaurant's pizza orders and a character search.

pub mod board;
pub mod rules;
pub mod game;
pub mod input;
pub mod restaurant;
pub mod search;
