//! A generator of the legal moves of chess on 64-bit sets of squares.
//!
//! A [`board::Board`] holds both sides, the side to move, the en-passant
//! state and a map from squares to pieces. [`moves::MoveGen::run`] lists the
//! legal moves of the side to move, and [`board::Board::make_move`] makes
//! one of them. Legality is built in: after each move the constraints on the
//! new side to move are computed (the other side's attacks, the pins, the
//! check mask), and the generator emits nothing that breaks them.
//!
//! What is proved of the whole: every move keeps the position well formed
//! ([`invariants`]), the list of moves holds exactly the moves described in
//! [`emission`], and each of them is legal ([`legal`]).
use vstd::prelude::*;

pub mod admission;
pub mod attacks;
pub mod bitboard;
pub mod bits;
pub mod board;
pub mod emission;
pub mod fen;
pub mod invariants;
pub mod legal;
pub mod moves;
pub mod notation;
pub mod perft;
pub mod piece;
pub mod pins;
pub mod player_state;
pub mod rays;
pub mod safety;
pub mod slides;
pub mod sound;
pub mod square;
pub mod start;
pub mod tables;

verus! {

} // verus!
