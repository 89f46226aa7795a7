//! Pieces and their sides.

use crate::board::square::Square;
use vstd::prelude::*;

verus! {

/// A piece standing on a square.
pub struct Piece {
    pub piece_type: PieceType,
    pub square: Square,
}

/// A kind of piece together with its side. One flat enumeration keeps a
/// piece in a single byte, which a kind paired with a side would not.
#[derive(Clone, Copy, Debug, PartialEq, Eq, Structural)]
pub enum PieceType {
    WhitePawn,
    WhiteKnight,
    WhiteBishop,
    WhiteRook,
    WhiteQueen,
    WhiteKing,
    BlackPawn,
    BlackKnight,
    BlackBishop,
    BlackRook,
    BlackQueen,
    BlackKing,
}

/// The side that a piece belongs to.
#[derive(Clone, Copy, Debug, PartialEq, Eq, Structural)]
pub enum PieceColor {
    White,
    Black,
}

impl PieceType {
    /// The side of the piece.
    pub open spec fn spec_color(&self) -> PieceColor {
        match self {
            PieceType::WhitePawn => PieceColor::White,
            PieceType::WhiteKnight => PieceColor::White,
            PieceType::WhiteBishop => PieceColor::White,
            PieceType::WhiteRook => PieceColor::White,
            PieceType::WhiteQueen => PieceColor::White,
            PieceType::WhiteKing => PieceColor::White,
            PieceType::BlackPawn => PieceColor::Black,
            PieceType::BlackKnight => PieceColor::Black,
            PieceType::BlackBishop => PieceColor::Black,
            PieceType::BlackRook => PieceColor::Black,
            PieceType::BlackQueen => PieceColor::Black,
            PieceType::BlackKing => PieceColor::Black,
        }
    }

    /// The side of the piece.
    #[verifier::when_used_as_spec(spec_color)]
    pub fn color(&self) -> (color: PieceColor)
        ensures
            color == self.spec_color(),
    {
        match self {
            PieceType::WhitePawn => PieceColor::White,
            PieceType::WhiteKnight => PieceColor::White,
            PieceType::WhiteBishop => PieceColor::White,
            PieceType::WhiteRook => PieceColor::White,
            PieceType::WhiteQueen => PieceColor::White,
            PieceType::WhiteKing => PieceColor::White,
            PieceType::BlackPawn => PieceColor::Black,
            PieceType::BlackKnight => PieceColor::Black,
            PieceType::BlackBishop => PieceColor::Black,
            PieceType::BlackRook => PieceColor::Black,
            PieceType::BlackQueen => PieceColor::Black,
            PieceType::BlackKing => PieceColor::Black,
        }
    }
}

} // verus!
