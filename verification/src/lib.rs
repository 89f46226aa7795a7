//! Bitboard representation of a chess position and pseudo-legal move
//! generation over it.
//!
//! A board is a 64-bit mask with one bit per square; every contract in this
//! crate is stated over the set of squares that such a mask stands for.

use vstd::prelude::*;

pub mod board;
pub mod movegen;
pub mod piece;
pub mod prelude;

verus! {

/// Adds two sizes whose sum is representable.
pub fn add(left: usize, right: usize) -> (sum: usize)
    requires
        left + right <= usize::MAX,
    ensures
        sum == left + right,
{
    left + right
}

} // verus!
