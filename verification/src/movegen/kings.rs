//! Pseudo-legal king moves.
//!
//! A king steps to one of the eight squares next to it. It may land on any
//! square that does not hold a piece of its own side; whether the square is
//! attacked is not looked at, and castling is not generated.

use crate::board::bitboard::{lemma_connective_squares, shifted, BitBoard, IsBitBoard};
use crate::movegen::steps::{lemma_step, step, step_mask, Direction};
use vstd::prelude::*;

verus! {

/// The squares next to a square of `kings`.
pub open spec fn king_attack_targets(kings: Set<int>) -> Set<int> {
    shifted(kings, 0, 1).union(shifted(kings, 1, 1)).union(shifted(kings, 1, 0)).union(
        shifted(kings, 1, -1),
    ).union(shifted(kings, 0, -1)).union(shifted(kings, -1, -1)).union(
        shifted(kings, -1, 0),
    ).union(shifted(kings, -1, 1))
}

/// The squares that the kings can move to: those next to them, but for the
/// squares of their own side.
pub open spec fn king_move_targets(kings: Set<int>, own: Set<int>) -> Set<int> {
    king_attack_targets(kings).difference(own)
}

/// The board of squares next to the kings, by shifts and masks.
pub open spec fn king_attacks_mask(kings: BitBoard) -> BitBoard {
    step_mask(kings, Direction::North) | step_mask(kings, Direction::NorthEast) | step_mask(
        kings,
        Direction::East,
    ) | step_mask(kings, Direction::SouthEast) | step_mask(kings, Direction::South) | step_mask(
        kings,
        Direction::SouthWest,
    ) | step_mask(kings, Direction::West) | step_mask(kings, Direction::NorthWest)
}

/// The shifts and masks of the king attacks give the squares next to the
/// kings.
pub proof fn lemma_king_attacks(kings: BitBoard)
    ensures
        king_attacks_mask(kings).squares() == king_attack_targets(kings.squares()),
{
    let s1 = step_mask(kings, Direction::North);
    let s2 = step_mask(kings, Direction::NorthEast);
    let s3 = step_mask(kings, Direction::East);
    let s4 = step_mask(kings, Direction::SouthEast);
    let s5 = step_mask(kings, Direction::South);
    let s6 = step_mask(kings, Direction::SouthWest);
    let s7 = step_mask(kings, Direction::West);
    let s8 = step_mask(kings, Direction::NorthWest);
    lemma_step(kings, Direction::North);
    lemma_step(kings, Direction::NorthEast);
    lemma_step(kings, Direction::East);
    lemma_step(kings, Direction::SouthEast);
    lemma_step(kings, Direction::South);
    lemma_step(kings, Direction::SouthWest);
    lemma_step(kings, Direction::West);
    lemma_step(kings, Direction::NorthWest);
    lemma_connective_squares(s1, s2);
    lemma_connective_squares(s1 | s2, s3);
    lemma_connective_squares(s1 | s2 | s3, s4);
    lemma_connective_squares(s1 | s2 | s3 | s4, s5);
    lemma_connective_squares(s1 | s2 | s3 | s4 | s5, s6);
    lemma_connective_squares(s1 | s2 | s3 | s4 | s5 | s6, s7);
    lemma_connective_squares(s1 | s2 | s3 | s4 | s5 | s6 | s7, s8);
}

/// The squares next to the given kings, whatever stands there.
pub fn king_attacks(kings: BitBoard) -> (attacks: BitBoard)
    ensures
        attacks == king_attacks_mask(kings),
        attacks.squares() == king_attack_targets(kings.squares()),
{
    proof {
        lemma_king_attacks(kings);
    }
    step(kings, Direction::North) | step(kings, Direction::NorthEast) | step(
        kings,
        Direction::East,
    ) | step(kings, Direction::SouthEast) | step(kings, Direction::South) | step(
        kings,
        Direction::SouthWest,
    ) | step(kings, Direction::West) | step(kings, Direction::NorthWest)
}

/// Every destination of the given kings: the squares next to them that do
/// not hold a piece of their own side. The moves are pseudo-legal.
pub fn king_moves(kings: BitBoard, own_pieces: BitBoard) -> (moves: BitBoard)
    ensures
        moves == king_attacks_mask(kings) & !own_pieces,
        moves.squares() == king_move_targets(kings.squares(), own_pieces.squares()),
{
    let attacks = king_attacks(kings);
    proof {
        lemma_connective_squares(own_pieces, own_pieces);
        lemma_connective_squares(attacks, !own_pieces);
        assert((attacks & !own_pieces).squares() =~= king_move_targets(
            kings.squares(),
            own_pieces.squares(),
        ));
    }
    attacks & !own_pieces
}

} // verus!
