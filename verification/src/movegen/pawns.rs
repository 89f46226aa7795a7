//! Pseudo-legal pawn moves.
//!
//! A pawn pushes straight ahead onto empty squares and captures one step
//! diagonally ahead. White moves up the ranks and black down. The squares
//! on which a capture en passant may land count as capturable squares like
//! any square that holds an enemy piece.

use crate::board::bitboard::{
    lemma_connective_squares, lemma_file_masks, lemma_rank_masks, lemma_shl_kept,
    lemma_shl_squares, lemma_shr_kept, lemma_shr_squares, on_board, rank_of, shifted, BitBoard,
    IsBitBoard, FILE_A, FILE_H, RANK_4, RANK_5,
};
use crate::board::position::{Position, PositionView};
use vstd::prelude::*;

verus! {

/// The squares that white pawns can push to. A pawn steps one rank up onto
/// an empty square. From there it may step one rank further, onto an empty
/// square of the fourth rank: the double step of a pawn that has not moved.
pub open spec fn white_pawn_push_targets(pawns: Set<int>, empty: Set<int>) -> Set<int> {
    Set::new(
        |to: int|
            on_board(to) && empty.contains(to) && (pawns.contains(to - 8) || (rank_of(to) == 3
                && empty.contains(to - 8) && pawns.contains(to - 16))),
    )
}

/// The squares that black pawns can push to. A pawn steps one rank down
/// onto an empty square. From there it may step one rank further, onto an
/// empty square of the fifth rank: the double step of a pawn that has not
/// moved.
pub open spec fn black_pawn_push_targets(pawns: Set<int>, empty: Set<int>) -> Set<int> {
    Set::new(
        |to: int|
            on_board(to) && empty.contains(to) && (pawns.contains(to + 8) || (rank_of(to) == 4
                && empty.contains(to + 8) && pawns.contains(to + 16))),
    )
}

/// The squares that white pawns attack: one rank up and one file to either
/// side, as far as that stays on the board.
pub open spec fn white_pawn_attack_targets(pawns: Set<int>) -> Set<int> {
    shifted(pawns, 1, 1).union(shifted(pawns, -1, 1))
}

/// The squares that black pawns attack: one rank down and one file to
/// either side, as far as that stays on the board.
pub open spec fn black_pawn_attack_targets(pawns: Set<int>) -> Set<int> {
    shifted(pawns, 1, -1).union(shifted(pawns, -1, -1))
}

/// The squares that white pawns can move to: the pushes onto squares that
/// are not `occupied`, and the attacked squares among those that hold an
/// `enemy` piece or are an `en_passant` square.
pub open spec fn white_pawn_move_targets(
    pawns: Set<int>,
    occupied: Set<int>,
    enemy: Set<int>,
    en_passant: Set<int>,
) -> Set<int> {
    let empty = Set::new(|sq: int| on_board(sq) && !occupied.contains(sq));
    let pushes = white_pawn_push_targets(pawns, empty);
    let captures = white_pawn_attack_targets(pawns).intersect(enemy.union(en_passant));
    pushes.union(captures)
}

/// The squares that black pawns can move to: the pushes onto squares that
/// are not `occupied`, and the attacked squares among those that hold an
/// `enemy` piece or are an `en_passant` square.
pub open spec fn black_pawn_move_targets(
    pawns: Set<int>,
    occupied: Set<int>,
    enemy: Set<int>,
    en_passant: Set<int>,
) -> Set<int> {
    let empty = Set::new(|sq: int| on_board(sq) && !occupied.contains(sq));
    let pushes = black_pawn_push_targets(pawns, empty);
    let captures = black_pawn_attack_targets(pawns).intersect(enemy.union(en_passant));
    pushes.union(captures)
}

/// The board of white pawn pushes, by shifts and masks.
pub open spec fn white_pawn_pushes_mask(pawns: BitBoard, empty: BitBoard) -> BitBoard {
    let one_square = (pawns << 8u64) & empty;
    let two_squares = (one_square << 8u64) & RANK_4 & empty;
    one_square | two_squares
}

/// The board of black pawn pushes, by shifts and masks.
pub open spec fn black_pawn_pushes_mask(pawns: BitBoard, empty: BitBoard) -> BitBoard {
    let one_square = (pawns >> 8u64) & empty;
    let two_squares = (one_square >> 8u64) & RANK_5 & empty;
    one_square | two_squares
}

/// The board of squares that white pawns attack, by shifts and masks.
pub open spec fn white_pawn_attacks_mask(pawns: BitBoard) -> BitBoard {
    ((pawns << 9u64) & !FILE_A) | ((pawns << 7u64) & !FILE_H)
}

/// The board of squares that black pawns attack, by shifts and masks.
pub open spec fn black_pawn_attacks_mask(pawns: BitBoard) -> BitBoard {
    ((pawns >> 7u64) & !FILE_A) | ((pawns >> 9u64) & !FILE_H)
}

/// The board of white pawn moves in a position, by shifts and masks.
pub open spec fn white_pawn_moves_mask(pawns: BitBoard, position: PositionView) -> BitBoard {
    let pushes = white_pawn_pushes_mask(pawns, position.empty_squares());
    let capturable = position.black.pieces() | position.en_passant_targets;
    pushes | (white_pawn_attacks_mask(pawns) & capturable)
}

/// The board of black pawn moves in a position, by shifts and masks.
pub open spec fn black_pawn_moves_mask(pawns: BitBoard, position: PositionView) -> BitBoard {
    let pushes = black_pawn_pushes_mask(pawns, position.empty_squares());
    let capturable = position.white.pieces() | position.en_passant_targets;
    pushes | (black_pawn_attacks_mask(pawns) & capturable)
}

/// The shifts and masks of the white pawn pushes give the push squares.
pub proof fn lemma_white_pawn_pushes(pawns: BitBoard, empty: BitBoard)
    ensures
        white_pawn_pushes_mask(pawns, empty).squares() == white_pawn_push_targets(
            pawns.squares(),
            empty.squares(),
        ),
{
    let one_square = (pawns << 8u64) & empty;
    let two_squares = (one_square << 8u64) & RANK_4 & empty;
    lemma_rank_masks();
    lemma_shl_squares(pawns, 8);
    lemma_connective_squares(pawns << 8u64, empty);
    lemma_shl_squares(one_square, 8);
    lemma_connective_squares(one_square << 8u64, RANK_4);
    lemma_connective_squares((one_square << 8u64) & RANK_4, empty);
    lemma_connective_squares(one_square, two_squares);
    assert((one_square | two_squares).squares() =~= white_pawn_push_targets(
        pawns.squares(),
        empty.squares(),
    ));
}

/// The shifts and masks of the black pawn pushes give the push squares.
pub proof fn lemma_black_pawn_pushes(pawns: BitBoard, empty: BitBoard)
    ensures
        black_pawn_pushes_mask(pawns, empty).squares() == black_pawn_push_targets(
            pawns.squares(),
            empty.squares(),
        ),
{
    let one_square = (pawns >> 8u64) & empty;
    let two_squares = (one_square >> 8u64) & RANK_5 & empty;
    lemma_rank_masks();
    lemma_shr_squares(pawns, 8);
    lemma_connective_squares(pawns >> 8u64, empty);
    lemma_shr_squares(one_square, 8);
    lemma_connective_squares(one_square >> 8u64, RANK_5);
    lemma_connective_squares((one_square >> 8u64) & RANK_5, empty);
    lemma_connective_squares(one_square, two_squares);
    assert((one_square | two_squares).squares() =~= black_pawn_push_targets(
        pawns.squares(),
        empty.squares(),
    ));
}

/// The shifts and masks of the white pawn attacks give the attacked
/// squares.
pub proof fn lemma_white_pawn_attacks(pawns: BitBoard)
    ensures
        white_pawn_attacks_mask(pawns).squares() == white_pawn_attack_targets(pawns.squares()),
{
    lemma_file_masks();
    lemma_connective_squares(FILE_A, FILE_A);
    lemma_connective_squares(FILE_H, FILE_H);
    lemma_shl_kept(pawns, 9, !FILE_A, 1, 1);
    lemma_shl_kept(pawns, 7, !FILE_H, -1, 1);
    lemma_connective_squares((pawns << 9u64) & !FILE_A, (pawns << 7u64) & !FILE_H);
}

/// The shifts and masks of the black pawn attacks give the attacked
/// squares.
pub proof fn lemma_black_pawn_attacks(pawns: BitBoard)
    ensures
        black_pawn_attacks_mask(pawns).squares() == black_pawn_attack_targets(pawns.squares()),
{
    lemma_file_masks();
    lemma_connective_squares(FILE_A, FILE_A);
    lemma_connective_squares(FILE_H, FILE_H);
    lemma_shr_kept(pawns, 7, !FILE_A, 1, -1);
    lemma_shr_kept(pawns, 9, !FILE_H, -1, -1);
    lemma_connective_squares((pawns >> 7u64) & !FILE_A, (pawns >> 9u64) & !FILE_H);
}

/// Every destination of the given white pawns in the position, by push or
/// by capture. The moves are pseudo-legal: whether one of them leaves the
/// mover's own king attacked is not looked at. A capture en passant is
/// reported by its destination square only.
pub fn white_pawn_moves(white_pawns: BitBoard, position: &Position) -> (moves: BitBoard)
    ensures
        moves == white_pawn_moves_mask(white_pawns, position@),
        moves.squares() == white_pawn_move_targets(
            white_pawns.squares(),
            position@.all_pieces().squares(),
            position@.black.pieces().squares(),
            position@.en_passant_targets.squares(),
        ),
{
    let pushes = white_pawn_pushes(white_pawns, position.empty_squares());
    let captures = white_pawn_captures(
        white_pawns,
        position.black_pieces() | position.en_passant_targets(),
    );
    proof {
        lemma_connective_squares(position@.black.pieces(), position@.en_passant_targets);
        lemma_connective_squares(position@.all_pieces(), position@.all_pieces());
        lemma_connective_squares(pushes, captures);
        assert(position@.empty_squares().squares() =~= Set::new(
            |sq: int| on_board(sq) && !position@.all_pieces().squares().contains(sq),
        ));
    }
    pushes | captures
}

/// Every destination of the given black pawns in the position, by push or
/// by capture. The moves are pseudo-legal: whether one of them leaves the
/// mover's own king attacked is not looked at. A capture en passant is
/// reported by its destination square only.
pub fn black_pawn_moves(black_pawns: BitBoard, position: &Position) -> (moves: BitBoard)
    ensures
        moves == black_pawn_moves_mask(black_pawns, position@),
        moves.squares() == black_pawn_move_targets(
            black_pawns.squares(),
            position@.all_pieces().squares(),
            position@.white.pieces().squares(),
            position@.en_passant_targets.squares(),
        ),
{
    let pushes = black_pawn_pushes(black_pawns, position.empty_squares());
    let captures = black_pawn_captures(
        black_pawns,
        position.white_pieces() | position.en_passant_targets(),
    );
    proof {
        lemma_connective_squares(position@.white.pieces(), position@.en_passant_targets);
        lemma_connective_squares(position@.all_pieces(), position@.all_pieces());
        lemma_connective_squares(pushes, captures);
        assert(position@.empty_squares().squares() =~= Set::new(
            |sq: int| on_board(sq) && !position@.all_pieces().squares().contains(sq),
        ));
    }
    pushes | captures
}

/// The squares that the given white pawns can push to, one step or two,
/// over the given empty squares.
pub fn white_pawn_pushes(white_pawns: BitBoard, empty_squares: BitBoard) -> (moves: BitBoard)
    ensures
        moves == white_pawn_pushes_mask(white_pawns, empty_squares),
        moves.squares() == white_pawn_push_targets(
            white_pawns.squares(),
            empty_squares.squares(),
        ),
{
    let one_square = white_pawns.inc_rank() & empty_squares;
    let two_squares = one_square.inc_rank() & RANK_4 & empty_squares;
    proof {
        lemma_white_pawn_pushes(white_pawns, empty_squares);
    }
    one_square | two_squares
}

/// The squares that the given black pawns can push to, one step or two,
/// over the given empty squares.
pub fn black_pawn_pushes(black_pawns: BitBoard, empty_squares: BitBoard) -> (moves: BitBoard)
    ensures
        moves == black_pawn_pushes_mask(black_pawns, empty_squares),
        moves.squares() == black_pawn_push_targets(
            black_pawns.squares(),
            empty_squares.squares(),
        ),
{
    let one_square = black_pawns.dec_rank() & empty_squares;
    let two_squares = one_square.dec_rank() & RANK_5 & empty_squares;
    proof {
        lemma_black_pawn_pushes(black_pawns, empty_squares);
    }
    one_square | two_squares
}

/// The squares that the given white pawns attack, whatever stands there.
pub fn white_pawn_attacks(white_pawns: BitBoard) -> (attacks: BitBoard)
    ensures
        attacks == white_pawn_attacks_mask(white_pawns),
        attacks.squares() == white_pawn_attack_targets(white_pawns.squares()),
{
    let diag_right = (white_pawns << 9u64) & !FILE_A;
    let diag_left = (white_pawns << 7u64) & !FILE_H;
    proof {
        lemma_white_pawn_attacks(white_pawns);
    }
    diag_right | diag_left
}

/// The squares that the given black pawns attack, whatever stands there.
pub fn black_pawn_attacks(black_pawns: BitBoard) -> (attacks: BitBoard)
    ensures
        attacks == black_pawn_attacks_mask(black_pawns),
        attacks.squares() == black_pawn_attack_targets(black_pawns.squares()),
{
    let diag_left = (black_pawns >> 9u64) & !FILE_H;
    let diag_right = (black_pawns >> 7u64) & !FILE_A;
    proof {
        lemma_black_pawn_attacks(black_pawns);
    }
    diag_right | diag_left
}

/// The squares among `black_pieces` that the given white pawns attack.
pub fn white_pawn_captures(white_pawns: BitBoard, black_pieces: BitBoard) -> (captures: BitBoard)
    ensures
        captures == white_pawn_attacks_mask(white_pawns) & black_pieces,
        captures.squares() == white_pawn_attack_targets(white_pawns.squares()).intersect(
            black_pieces.squares(),
        ),
{
    let attacks = white_pawn_attacks(white_pawns);
    proof {
        lemma_connective_squares(attacks, black_pieces);
    }
    attacks & black_pieces
}

/// The squares among `white_pieces` that the given black pawns attack.
pub fn black_pawn_captures(black_pawns: BitBoard, white_pieces: BitBoard) -> (captures: BitBoard)
    ensures
        captures == black_pawn_attacks_mask(black_pawns) & white_pieces,
        captures.squares() == black_pawn_attack_targets(black_pawns.squares()).intersect(
            white_pieces.squares(),
        ),
{
    let attacks = black_pawn_attacks(black_pawns);
    proof {
        lemma_connective_squares(attacks, white_pieces);
    }
    attacks & white_pieces
}

} // verus!
