//! The board: bit masks over squares, square labels, and positions.

pub mod bitboard;
pub mod position;
pub mod square;
