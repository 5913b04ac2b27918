//! A Reversi (Othello) engine: bitboard state, legal-move generation, move
//! application with disc flipping, static position scoring, and a
//! time-boxed alpha-beta search parameterized by difficulty tiers.
//!
//! The modules build on each other leaves-first: `bits` models single bits
//! and population counts of a 64-bit bitboard, `board` holds the state,
//! `rules` the move legality and application, `evaluation` the static
//! scoring, `minimax` the adversarial search, and `difficulty` the tier
//! policy that turns a search result into the move the engine plays.

pub mod bits;
pub mod board;
pub mod rules;
pub mod evaluation;
pub mod minimax;
pub mod difficulty;
pub mod texts;
