//! Board model for a turn-based grid game: a dense, bounds-checked table of
//! typed cells built from one turn's snapshot of the board.
pub mod config;
pub mod graph;
pub mod node;
pub mod snapshot;
pub mod table;
