//! Pseudo-legal move generation.
//!
//! Each generator is a function of a board of pieces and of the occupancy
//! around them, and answers with the board of their destinations. The
//! moves are pseudo-legal: they follow the way the piece moves, but a move
//! that leaves the mover's king attacked is not sorted out here.

pub mod kings;
pub mod knights;
pub mod pawns;
pub mod sliders;
pub mod steps;

use crate::board::bitboard::{BitBoard, IsBitBoard};
use crate::board::position::{Position, PositionView};
use crate::movegen::kings::{king_attacks_mask, king_move_targets, king_moves};
use crate::movegen::knights::{knight_attacks_mask, knight_move_targets, knight_moves};
use crate::movegen::pawns::{
    black_pawn_move_targets, black_pawn_moves, black_pawn_moves_mask, white_pawn_move_targets,
    white_pawn_moves, white_pawn_moves_mask,
};
use crate::movegen::sliders::{
    bishop_attacks_mask, bishop_move_targets, bishop_moves, queen_attacks_mask,
    queen_move_targets, queen_moves, rook_attacks_mask, rook_move_targets, rook_moves,
};
use crate::piece::{Piece, PieceColor, PieceType};
use vstd::prelude::*;

verus! {

/// The occupancy of the side that moves a piece of the given type.
pub open spec fn own_pieces(position: PositionView, piece_type: PieceType) -> BitBoard {
    position.of_color(piece_type.spec_color())
}

/// The occupancy of the side that a piece of the given type moves against.
pub open spec fn enemy_pieces(position: PositionView, piece_type: PieceType) -> BitBoard {
    match piece_type.spec_color() {
        PieceColor::White => position.black.pieces(),
        PieceColor::Black => position.white.pieces(),
    }
}

/// The squares that pieces of the given type, standing on `pieces`, can
/// move to in the position.
pub open spec fn move_targets(
    position: PositionView,
    piece_type: PieceType,
    pieces: Set<int>,
) -> Set<int> {
    let own = own_pieces(position, piece_type).squares();
    let enemy = enemy_pieces(position, piece_type).squares();
    match piece_type {
        PieceType::WhitePawn => white_pawn_move_targets(
            pieces,
            position.all_pieces().squares(),
            enemy,
            position.en_passant_targets.squares(),
        ),
        PieceType::BlackPawn => black_pawn_move_targets(
            pieces,
            position.all_pieces().squares(),
            enemy,
            position.en_passant_targets.squares(),
        ),
        PieceType::WhiteKnight | PieceType::BlackKnight => knight_move_targets(pieces, own),
        PieceType::WhiteBishop | PieceType::BlackBishop => bishop_move_targets(pieces, own, enemy),
        PieceType::WhiteRook | PieceType::BlackRook => rook_move_targets(pieces, own, enemy),
        PieceType::WhiteQueen | PieceType::BlackQueen => queen_move_targets(pieces, own, enemy),
        PieceType::WhiteKing | PieceType::BlackKing => king_move_targets(pieces, own),
    }
}

/// The board of destinations of pieces of the given type, by shifts and
/// masks.
pub open spec fn moves_mask(
    position: PositionView,
    piece_type: PieceType,
    pieces: BitBoard,
) -> BitBoard {
    let own = own_pieces(position, piece_type);
    let enemy = enemy_pieces(position, piece_type);
    match piece_type {
        PieceType::WhitePawn => white_pawn_moves_mask(pieces, position),
        PieceType::BlackPawn => black_pawn_moves_mask(pieces, position),
        PieceType::WhiteKnight | PieceType::BlackKnight => knight_attacks_mask(pieces) & !own,
        PieceType::WhiteBishop | PieceType::BlackBishop => bishop_attacks_mask(pieces, own | enemy)
            & !own,
        PieceType::WhiteRook | PieceType::BlackRook => rook_attacks_mask(pieces, own | enemy)
            & !own,
        PieceType::WhiteQueen | PieceType::BlackQueen => queen_attacks_mask(pieces, own | enemy)
            & !own,
        PieceType::WhiteKing | PieceType::BlackKing => king_attacks_mask(pieces) & !own,
    }
}

/// Every pseudo-legal destination of the pieces of the given type that
/// stand on `pieces`. Whether the position holds such pieces there is not
/// looked at: the board says where the movers stand, the position gives
/// what is around them.
pub fn gen_moves(position: &Position, piece_type: PieceType, pieces: BitBoard) -> (moves: BitBoard)
    ensures
        moves == moves_mask(position@, piece_type, pieces),
        moves.squares() == move_targets(position@, piece_type, pieces.squares()),
{
    let own = position.pieces_of(piece_type.color());
    let enemy = match piece_type.color() {
        PieceColor::White => position.black_pieces(),
        PieceColor::Black => position.white_pieces(),
    };
    match piece_type {
        PieceType::WhitePawn => white_pawn_moves(pieces, position),
        PieceType::BlackPawn => black_pawn_moves(pieces, position),
        PieceType::WhiteKnight | PieceType::BlackKnight => knight_moves(pieces, own),
        PieceType::WhiteBishop | PieceType::BlackBishop => bishop_moves(pieces, own, enemy),
        PieceType::WhiteRook | PieceType::BlackRook => rook_moves(pieces, own, enemy),
        PieceType::WhiteQueen | PieceType::BlackQueen => queen_moves(pieces, own, enemy),
        PieceType::WhiteKing | PieceType::BlackKing => king_moves(pieces, own),
    }
}

/// Every pseudo-legal destination of the given piece from its square.
pub fn gen_moves_for_piece(position: &Position, piece: Piece) -> (moves: BitBoard)
    ensures
        moves == moves_mask(position@, piece.piece_type, 1u64 << (piece.square.spec_index() as u64)),
        moves.squares() == move_targets(position@, piece.piece_type, set![piece.square@]),
{
    gen_moves(position, piece.piece_type, piece.square.bitboard())
}

} // verus!
