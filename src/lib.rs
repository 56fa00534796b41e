//! A tic-tac-toe engine with recorded game histories, together with the
//! shape and label handling of a small dense classifier that scores moves.

pub mod board;
pub mod game;
pub mod records;
pub mod matrix;
pub mod network;
