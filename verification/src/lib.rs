//! Core rules of a falling-block puzzle game: the playfield grid with
//! collision testing and permanent piece placement, and the catalog of
//! piece shapes with their cyclic rotation states.

pub mod matrix;
pub mod pieces;
