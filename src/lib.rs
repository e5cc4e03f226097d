//! Rules engine for an interactive chessboard: a board model, per-piece move
//! generation, a filter that removes moves leaving the mover's own king
//! attacked, and the bookkeeping of castling rights and turn order.

pub mod board;
pub mod check;
pub mod components;
pub mod game;
pub mod laws;
pub mod legal;
pub mod moves;
pub mod resources;
