//! A chess engine over bit-packed positions: precomputed attack tables,
//! a legality-filtered move generator, game-end classification, a static
//! evaluator and a depth-bounded minimax search with optional alpha-beta
//! pruning.

pub mod types;
pub mod bits;
pub mod square;
pub mod geometry;
pub mod subsets;
pub mod tables;
pub mod position;
pub mod movegen;
pub mod termination;
pub mod evaluation;
pub mod search;
pub mod normalboard;
pub mod render;
