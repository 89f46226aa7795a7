//! Pseudo-legal knight moves.
//!
//! A knight jumps two squares along a rank or a file and one square to the
//! side, over whatever stands between. It may land on any square that does
//! not hold a piece of its own side.

use crate::board::bitboard::{
    lemma_connective_squares, lemma_file_masks, lemma_shl_kept, lemma_shr_kept, shifted,
    BitBoard, IsBitBoard, FILE_A, FILE_B, FILE_G, FILE_H,
};
use vstd::prelude::*;

verus! {

/// The squares a knight's jump away from a square of `knights`, as far as
/// the jump stays on the board.
pub open spec fn knight_attack_targets(knights: Set<int>) -> Set<int> {
    shifted(knights, 1, 2).union(shifted(knights, 2, 1)).union(shifted(knights, 2, -1)).union(
        shifted(knights, 1, -2),
    ).union(shifted(knights, -1, -2)).union(shifted(knights, -2, -1)).union(
        shifted(knights, -2, 1),
    ).union(shifted(knights, -1, 2))
}

/// The squares that the knights can move to: those they attack, but for
/// the squares of their own side.
pub open spec fn knight_move_targets(knights: Set<int>, own: Set<int>) -> Set<int> {
    knight_attack_targets(knights).difference(own)
}

/// The board of squares that the knights attack, by shifts and masks.
pub open spec fn knight_attacks_mask(knights: BitBoard) -> BitBoard {
    ((knights << 17u64) & !FILE_A) | ((knights << 10u64) & !(FILE_A | FILE_B)) | ((knights
        >> 6u64) & !(FILE_A | FILE_B)) | ((knights >> 15u64) & !FILE_A) | ((knights >> 17u64)
        & !FILE_H) | ((knights >> 10u64) & !(FILE_G | FILE_H)) | ((knights << 6u64) & !(FILE_G
        | FILE_H)) | ((knights << 15u64) & !FILE_H)
}

/// The shifts and masks of the knight attacks give the squares a knight's
/// jump away.
pub proof fn lemma_knight_attacks(knights: BitBoard)
    ensures
        knight_attacks_mask(knights).squares() == knight_attack_targets(knights.squares()),
{
    let not_a = !FILE_A;
    let not_ab = !(FILE_A | FILE_B);
    let not_h = !FILE_H;
    let not_gh = !(FILE_G | FILE_H);
    lemma_file_masks();
    lemma_connective_squares(FILE_A, FILE_B);
    lemma_connective_squares(FILE_G, FILE_H);
    lemma_connective_squares(FILE_A, FILE_A);
    lemma_connective_squares(FILE_H, FILE_H);
    lemma_connective_squares(FILE_A | FILE_B, FILE_A);
    lemma_connective_squares(FILE_G | FILE_H, FILE_H);
    let j1 = (knights << 17u64) & not_a;
    let j2 = (knights << 10u64) & not_ab;
    let j3 = (knights >> 6u64) & not_ab;
    let j4 = (knights >> 15u64) & not_a;
    let j5 = (knights >> 17u64) & not_h;
    let j6 = (knights >> 10u64) & not_gh;
    let j7 = (knights << 6u64) & not_gh;
    let j8 = (knights << 15u64) & not_h;
    lemma_shl_kept(knights, 17, not_a, 1, 2);
    lemma_shl_kept(knights, 10, not_ab, 2, 1);
    lemma_shr_kept(knights, 6, not_ab, 2, -1);
    lemma_shr_kept(knights, 15, not_a, 1, -2);
    lemma_shr_kept(knights, 17, not_h, -1, -2);
    lemma_shr_kept(knights, 10, not_gh, -2, -1);
    lemma_shl_kept(knights, 6, not_gh, -2, 1);
    lemma_shl_kept(knights, 15, not_h, -1, 2);
    lemma_connective_squares(j1, j2);
    lemma_connective_squares(j1 | j2, j3);
    lemma_connective_squares(j1 | j2 | j3, j4);
    lemma_connective_squares(j1 | j2 | j3 | j4, j5);
    lemma_connective_squares(j1 | j2 | j3 | j4 | j5, j6);
    lemma_connective_squares(j1 | j2 | j3 | j4 | j5 | j6, j7);
    lemma_connective_squares(j1 | j2 | j3 | j4 | j5 | j6 | j7, j8);
}

/// The squares that the given knights attack, whatever stands there.
pub fn knight_attacks(knights: BitBoard) -> (attacks: BitBoard)
    ensures
        attacks == knight_attacks_mask(knights),
        attacks.squares() == knight_attack_targets(knights.squares()),
{
    proof {
        lemma_knight_attacks(knights);
    }
    ((knights << 17u64) & !FILE_A) | ((knights << 10u64) & !(FILE_A | FILE_B)) | ((knights
        >> 6u64) & !(FILE_A | FILE_B)) | ((knights >> 15u64) & !FILE_A) | ((knights >> 17u64)
        & !FILE_H) | ((knights >> 10u64) & !(FILE_G | FILE_H)) | ((knights << 6u64) & !(FILE_G
        | FILE_H)) | ((knights << 15u64) & !FILE_H)
}

/// Every destination of the given knights: the squares they attack that do
/// not hold a piece of their own side. The moves are pseudo-legal.
pub fn knight_moves(knights: BitBoard, own_pieces: BitBoard) -> (moves: BitBoard)
    ensures
        moves == knight_attacks_mask(knights) & !own_pieces,
        moves.squares() == knight_move_targets(knights.squares(), own_pieces.squares()),
{
    let attacks = knight_attacks(knights);
    proof {
        lemma_connective_squares(own_pieces, own_pieces);
        lemma_connective_squares(attacks, !own_pieces);
        assert((attacks & !own_pieces).squares() =~= knight_move_targets(
            knights.squares(),
            own_pieces.squares(),
        ));
    }
    attacks & !own_pieces
}

} // verus!
