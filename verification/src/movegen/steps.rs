//! Single steps in the eight directions of the board.

use crate::board::bitboard::{
    lemma_connective_squares, lemma_file_masks, lemma_shl_kept, lemma_shl_squares,
    lemma_shr_kept, lemma_shr_squares, shifted, BitBoard, IsBitBoard, FILE_A, FILE_H,
};
use vstd::prelude::*;

verus! {

/// A direction on the board, named as on a map with white at the bottom:
/// north is up the ranks and east is towards file h.
#[derive(Clone, Copy, Debug, PartialEq, Eq, Structural)]
pub enum Direction {
    North,
    NorthEast,
    East,
    SouthEast,
    South,
    SouthWest,
    West,
    NorthWest,
}

impl Direction {
    /// The change of file in one step: 1 towards file h, -1 towards file a.
    pub open spec fn files(self) -> int {
        match self {
            Direction::North => 0,
            Direction::NorthEast => 1,
            Direction::East => 1,
            Direction::SouthEast => 1,
            Direction::South => 0,
            Direction::SouthWest => -1,
            Direction::West => -1,
            Direction::NorthWest => -1,
        }
    }

    /// The change of rank in one step: 1 up and -1 down.
    pub open spec fn ranks(self) -> int {
        match self {
            Direction::North => 1,
            Direction::NorthEast => 1,
            Direction::East => 0,
            Direction::SouthEast => -1,
            Direction::South => -1,
            Direction::SouthWest => -1,
            Direction::West => 0,
            Direction::NorthWest => 1,
        }
    }
}

/// The board of one step in a direction, by a shift and a mask.
pub open spec fn step_mask(board: BitBoard, direction: Direction) -> BitBoard {
    match direction {
        Direction::North => board << 8u64,
        Direction::NorthEast => (board << 9u64) & !FILE_A,
        Direction::East => (board << 1u64) & !FILE_A,
        Direction::SouthEast => (board >> 7u64) & !FILE_A,
        Direction::South => board >> 8u64,
        Direction::SouthWest => (board >> 9u64) & !FILE_H,
        Direction::West => (board >> 1u64) & !FILE_H,
        Direction::NorthWest => (board << 7u64) & !FILE_H,
    }
}

/// The shift and mask of a step move every square one step in the
/// direction and drop the squares that would leave the board.
pub proof fn lemma_step(board: BitBoard, direction: Direction)
    ensures
        step_mask(board, direction).squares() == shifted(
            board.squares(),
            direction.files(),
            direction.ranks(),
        ),
{
    lemma_file_masks();
    lemma_connective_squares(FILE_A, FILE_A);
    lemma_connective_squares(FILE_H, FILE_H);
    match direction {
        Direction::North => {
            lemma_shl_squares(board, 8);
            assert((board << 8u64).squares() =~= shifted(board.squares(), 0, 1));
        },
        Direction::NorthEast => {
            lemma_shl_kept(board, 9, !FILE_A, 1, 1);
        },
        Direction::East => {
            lemma_shl_kept(board, 1, !FILE_A, 1, 0);
        },
        Direction::SouthEast => {
            lemma_shr_kept(board, 7, !FILE_A, 1, -1);
        },
        Direction::South => {
            lemma_shr_squares(board, 8);
            assert((board >> 8u64).squares() =~= shifted(board.squares(), 0, -1));
        },
        Direction::SouthWest => {
            lemma_shr_kept(board, 9, !FILE_H, -1, -1);
        },
        Direction::West => {
            lemma_shr_kept(board, 1, !FILE_H, -1, 0);
        },
        Direction::NorthWest => {
            lemma_shl_kept(board, 7, !FILE_H, -1, 1);
        },
    }
}

/// Moves every square of the board one step in the given direction.
/// Squares on the edge that the direction points at are dropped.
pub fn step(board: BitBoard, direction: Direction) -> (moved: BitBoard)
    ensures
        moved == step_mask(board, direction),
        moved.squares() == shifted(board.squares(), direction.files(), direction.ranks()),
{
    proof {
        lemma_step(board, direction);
    }
    match direction {
        Direction::North => board << 8u64,
        Direction::NorthEast => (board << 9u64) & !FILE_A,
        Direction::East => (board << 1u64) & !FILE_A,
        Direction::SouthEast => (board >> 7u64) & !FILE_A,
        Direction::South => board >> 8u64,
        Direction::SouthWest => (board >> 9u64) & !FILE_H,
        Direction::West => (board >> 1u64) & !FILE_H,
        Direction::NorthWest => (board << 7u64) & !FILE_H,
    }
}

} // verus!
