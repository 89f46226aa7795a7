use chessboard::board::bitboard::{
    BitBoard, CENTER_16, CENTER_4, DARK_SQUARES, EDGE, EMPTY, FILE_A, FILE_B, FILE_C, FILE_D,
    FILE_E, FILE_F, FILE_G, FILE_H, FULL, KINGSIDE, LIGHT_SQUARES, QUEENSIDE, RANK_1, RANK_2,
    RANK_3, RANK_4, RANK_5, RANK_6, RANK_7, RANK_8, WHITE_HALF, BLACK_HALF,
};
use chessboard::board::position::{Position, PositionBuilder, SingleColorPosition};
use chessboard::board::square::Square;
use chessboard::piece::{Piece, PieceColor, PieceType};
use chessboard::prelude::Square as PreludeSquare;

const ALL_PIECES: [PieceType; 12] = [
    PieceType::WhitePawn,
    PieceType::WhiteKnight,
    PieceType::WhiteBishop,
    PieceType::WhiteRook,
    PieceType::WhiteQueen,
    PieceType::WhiteKing,
    PieceType::BlackPawn,
    PieceType::BlackKnight,
    PieceType::BlackBishop,
    PieceType::BlackRook,
    PieceType::BlackQueen,
    PieceType::BlackKing,
];

fn twelve_boards() -> PositionBuilder {
    PositionBuilder::new()
        .white_pawns(0x0001)
        .white_knights(0x0002)
        .white_bishops(0x0004)
        .white_rooks(0x0008)
        .white_queens(0x0010)
        .white_kings(0x0020)
        .black_pawns(0x0100)
        .black_knights(0x0200)
        .black_bishops(0x0400)
        .black_rooks(0x0800)
        .black_queens(0x1000)
        .black_kings(0x2000)
        .en_passant_targets(0x8000)
}

#[test]
fn a_new_builder_is_empty() {
    let builder = PositionBuilder::new();
    assert_eq!(builder.white_pawns, EMPTY);
    assert_eq!(builder.white_knights, EMPTY);
    assert_eq!(builder.white_bishops, EMPTY);
    assert_eq!(builder.white_rooks, EMPTY);
    assert_eq!(builder.white_queens, EMPTY);
    assert_eq!(builder.white_kings, EMPTY);
    assert_eq!(builder.black_pawns, EMPTY);
    assert_eq!(builder.black_knights, EMPTY);
    assert_eq!(builder.black_bishops, EMPTY);
    assert_eq!(builder.black_rooks, EMPTY);
    assert_eq!(builder.black_queens, EMPTY);
    assert_eq!(builder.black_kings, EMPTY);
    assert_eq!(builder.en_passant_targets, EMPTY);
    let position = builder.build();
    assert_eq!(position.all_pieces(), EMPTY);
    assert_eq!(position.empty_squares(), FULL);
    assert_eq!(position.en_passant_targets(), EMPTY);
    assert!(position.is_valid());
}

#[test]
fn each_setter_sets_its_own_board() {
    let builder = twelve_boards();
    assert_eq!(builder.white_pawns, 0x0001);
    assert_eq!(builder.white_knights, 0x0002);
    assert_eq!(builder.white_bishops, 0x0004);
    assert_eq!(builder.white_rooks, 0x0008);
    assert_eq!(builder.white_queens, 0x0010);
    assert_eq!(builder.white_kings, 0x0020);
    assert_eq!(builder.black_pawns, 0x0100);
    assert_eq!(builder.black_knights, 0x0200);
    assert_eq!(builder.black_bishops, 0x0400);
    assert_eq!(builder.black_rooks, 0x0800);
    assert_eq!(builder.black_queens, 0x1000);
    assert_eq!(builder.black_kings, 0x2000);
    assert_eq!(builder.en_passant_targets, 0x8000);
    // A later call replaces the board, it does not add to it.
    let builder = builder.white_pawns(0x4000);
    assert_eq!(builder.white_pawns, 0x4000);
    assert_eq!(builder.white_knights, 0x0002);
    assert_eq!(builder.black_kings, 0x2000);
}

#[test]
fn a_built_position_holds_the_boards_of_its_builder() {
    let position = twelve_boards().build();
    assert_eq!(position.white_pawns(), 0x0001);
    assert_eq!(position.white_knights(), 0x0002);
    assert_eq!(position.white_bishops(), 0x0004);
    assert_eq!(position.white_rooks(), 0x0008);
    assert_eq!(position.white_queens(), 0x0010);
    assert_eq!(position.white_kings(), 0x0020);
    assert_eq!(position.black_pawns(), 0x0100);
    assert_eq!(position.black_knights(), 0x0200);
    assert_eq!(position.black_bishops(), 0x0400);
    assert_eq!(position.black_rooks(), 0x0800);
    assert_eq!(position.black_queens(), 0x1000);
    assert_eq!(position.black_kings(), 0x2000);
    assert_eq!(position.en_passant_targets(), 0x8000);
    assert_eq!(position.white_pieces(), 0x003f);
    assert_eq!(position.black_pieces(), 0x3f00);
    assert_eq!(position.all_pieces(), 0x3f3f);
    assert_eq!(position.empty_squares(), !0x3f3fu64);
}

#[test]
fn the_aggregates_are_the_unions() {
    for builder in [twelve_boards(), PositionBuilder::new().white_rooks(0x81).black_rooks(0x81 << 56)] {
        let position = builder.build();
        assert_eq!(position.all_pieces(), position.white_pieces() | position.black_pieces());
        assert_eq!(
            position.white_pieces(),
            position.white_pawns()
                | position.white_knights()
                | position.white_bishops()
                | position.white_rooks()
                | position.white_queens()
                | position.white_kings()
        );
        assert_eq!(
            position.black_pieces(),
            position.black_pawns()
                | position.black_knights()
                | position.black_bishops()
                | position.black_rooks()
                | position.black_queens()
                | position.black_kings()
        );
        assert_eq!(position.empty_squares(), !position.all_pieces());
        assert_eq!(position.empty_squares() & position.all_pieces(), EMPTY);
        assert_eq!(position.empty_squares() | position.all_pieces(), FULL);
    }
}

#[test]
fn the_sides_of_a_builder() {
    let builder = twelve_boards();
    let white = builder.get_white_pieces();
    let black = builder.get_black_pieces();
    assert_eq!(*white.pawns(), 0x0001);
    assert_eq!(*white.knights(), 0x0002);
    assert_eq!(*white.bishops(), 0x0004);
    assert_eq!(*white.rooks(), 0x0008);
    assert_eq!(*white.queens(), 0x0010);
    assert_eq!(*white.kings(), 0x0020);
    assert_eq!(*black.pawns(), 0x0100);
    assert_eq!(*black.knights(), 0x0200);
    assert_eq!(*black.bishops(), 0x0400);
    assert_eq!(*black.rooks(), 0x0800);
    assert_eq!(*black.queens(), 0x1000);
    assert_eq!(*black.kings(), 0x2000);
    assert_eq!(white, SingleColorPosition::new(0x01, 0x02, 0x04, 0x08, 0x10, 0x20));
    assert_eq!(Position::new(white, black, 0x8000), builder.build());
}

#[test]
fn the_starting_position_board_by_board() {
    let start = Position::starting_position();
    assert_eq!(start.white_pawns(), 0x00_00_00_00_00_00_ff_00);
    assert_eq!(start.white_knights(), 0x42);
    assert_eq!(start.white_bishops(), 0x24);
    assert_eq!(start.white_rooks(), 0x81);
    assert_eq!(start.white_queens(), 0x08);
    assert_eq!(start.white_kings(), 0x10);
    assert_eq!(start.black_pawns(), 0x00_ff_00_00_00_00_00_00);
    assert_eq!(start.black_knights(), 0x42_00_00_00_00_00_00_00);
    assert_eq!(start.black_bishops(), 0x24_00_00_00_00_00_00_00);
    assert_eq!(start.black_rooks(), 0x81_00_00_00_00_00_00_00);
    assert_eq!(start.black_queens(), 0x08_00_00_00_00_00_00_00);
    assert_eq!(start.black_kings(), 0x10_00_00_00_00_00_00_00);
    assert_eq!(start.white_pieces(), 0xffff);
    assert_eq!(start.black_pieces(), 0xffff_0000_0000_0000);
    assert_eq!(start.all_pieces(), 0xffff_0000_0000_ffff);
    assert_eq!(start.empty_squares(), 0x0000_ffff_ffff_0000);
    assert_eq!(start.en_passant_targets(), EMPTY);
    assert!(start.is_valid());
}

#[test]
fn en_passant_squares_can_be_replaced() {
    let mut position = Position::starting_position();
    let before = position;
    position.set_en_passant_targets(Square::E3.bitboard());
    assert_eq!(position.en_passant_targets(), 0x00_00_00_00_00_10_00_00);
    assert_eq!(position.all_pieces(), before.all_pieces());
    assert_eq!(position.white_pieces(), before.white_pieces());
    assert_eq!(position.black_pawns(), before.black_pawns());
    assert_ne!(position, before);
    position.set_en_passant_targets(EMPTY);
    assert_eq!(position, before);
}

#[test]
fn indexing_by_side_and_by_piece() {
    let position = twelve_boards().build();
    assert_eq!(position[PieceColor::White], 0x003f);
    assert_eq!(position[PieceColor::Black], 0x3f00);
    assert_eq!(position.pieces_of(PieceColor::White), 0x003f);
    assert_eq!(position.pieces_of(PieceColor::Black), 0x3f00);
    let boards: [BitBoard; 12] = [
        0x0001, 0x0002, 0x0004, 0x0008, 0x0010, 0x0020, 0x0100, 0x0200, 0x0400, 0x0800, 0x1000,
        0x2000,
    ];
    for (piece, board) in ALL_PIECES.iter().zip(boards) {
        assert_eq!(position[*piece], board);
    }
}

#[test]
fn looking_up_the_piece_on_a_square() {
    let start = Position::starting_position();
    assert_eq!(start.piece_at(Square::A1), Some(PieceType::WhiteRook));
    assert_eq!(start.piece_at(Square::B1), Some(PieceType::WhiteKnight));
    assert_eq!(start.piece_at(Square::C1), Some(PieceType::WhiteBishop));
    assert_eq!(start.piece_at(Square::D1), Some(PieceType::WhiteQueen));
    assert_eq!(start.piece_at(Square::E1), Some(PieceType::WhiteKing));
    assert_eq!(start.piece_at(Square::H2), Some(PieceType::WhitePawn));
    assert_eq!(start.piece_at(Square::A7), Some(PieceType::BlackPawn));
    assert_eq!(start.piece_at(Square::A8), Some(PieceType::BlackRook));
    assert_eq!(start.piece_at(Square::G8), Some(PieceType::BlackKnight));
    assert_eq!(start.piece_at(Square::F8), Some(PieceType::BlackBishop));
    assert_eq!(start.piece_at(Square::D8), Some(PieceType::BlackQueen));
    assert_eq!(start.piece_at(Square::E8), Some(PieceType::BlackKing));
    assert_eq!(start.piece_at(Square::E4), None);
    assert_eq!(start.piece_at(Square::A3), None);
    assert_eq!(start[Square::E1], Some(PieceType::WhiteKing));
    assert_eq!(start[Square::E8], Some(PieceType::BlackKing));
    assert_eq!(start[Square::E5], None);
    for index in 0..64u8 {
        let square = Square::from_index(index).unwrap();
        let found = start.piece_at(square);
        assert_eq!(start[square], found);
        assert_eq!(found.is_some(), start.all_pieces() >> index & 1 == 1);
        for piece in ALL_PIECES {
            assert_eq!(found == Some(piece), start[piece] >> index & 1 == 1);
        }
    }
}

#[test]
fn a_doubly_claimed_square_answers_with_the_first_board() {
    let position = PositionBuilder::new()
        .white_kings(Square::E4.bitboard())
        .black_pawns(Square::E4.bitboard())
        .build();
    assert!(!position.is_valid());
    assert_eq!(position.piece_at(Square::E4), Some(PieceType::WhiteKing));
    assert_eq!(position[Square::E4], Some(PieceType::WhiteKing));
}

#[test]
fn overlaps_make_a_position_invalid() {
    assert!(twelve_boards().build().is_valid());
    // Within one side.
    assert!(!twelve_boards().white_knights(0x0003).build().is_valid());
    assert!(!twelve_boards().white_kings(0x0030).build().is_valid());
    assert!(!twelve_boards().black_queens(0x1800).build().is_valid());
    // Between the sides.
    assert!(!twelve_boards().black_pawns(0x0101).build().is_valid());
    assert!(!twelve_boards().black_kings(0x2020).build().is_valid());
    assert!(!twelve_boards().white_pawns(0x2001).build().is_valid());
    // Every pair of boards on one common square.
    for first in 0..12 {
        for second in 0..12 {
            let square: BitBoard = 1 << 40;
            let mut builder = twelve_boards();
            for (i, at) in [first, second].into_iter().enumerate() {
                let extra = if i == 0 || first != second { square } else { 0 };
                builder = match at {
                    0 => { let b = builder.white_pawns | extra; builder.white_pawns(b) }
                    1 => { let b = builder.white_knights | extra; builder.white_knights(b) }
                    2 => { let b = builder.white_bishops | extra; builder.white_bishops(b) }
                    3 => { let b = builder.white_rooks | extra; builder.white_rooks(b) }
                    4 => { let b = builder.white_queens | extra; builder.white_queens(b) }
                    5 => { let b = builder.white_kings | extra; builder.white_kings(b) }
                    6 => { let b = builder.black_pawns | extra; builder.black_pawns(b) }
                    7 => { let b = builder.black_knights | extra; builder.black_knights(b) }
                    8 => { let b = builder.black_bishops | extra; builder.black_bishops(b) }
                    9 => { let b = builder.black_rooks | extra; builder.black_rooks(b) }
                    10 => { let b = builder.black_queens | extra; builder.black_queens(b) }
                    _ => { let b = builder.black_kings | extra; builder.black_kings(b) }
                };
            }
            assert_eq!(builder.build().is_valid(), first == second);
        }
    }
    // The en passant squares are no pieces.
    assert!(twelve_boards().en_passant_targets(FULL).build().is_valid());
}

#[test]
fn pieces_know_their_side() {
    for (i, piece) in ALL_PIECES.iter().enumerate() {
        let expected = if i < 6 { PieceColor::White } else { PieceColor::Black };
        assert_eq!(piece.color(), expected);
    }
    let piece = Piece { piece_type: PieceType::BlackQueen, square: PreludeSquare::D8 };
    assert_eq!(piece.piece_type.color(), PieceColor::Black);
    assert_eq!(piece.square, Square::D8);
}

#[test]
fn ranks_and_files_hold_their_squares() {
    let ranks = [RANK_1, RANK_2, RANK_3, RANK_4, RANK_5, RANK_6, RANK_7, RANK_8];
    let files = [FILE_A, FILE_B, FILE_C, FILE_D, FILE_E, FILE_F, FILE_G, FILE_H];
    for sq in 0..64usize {
        for (rank, board) in ranks.iter().enumerate() {
            assert_eq!(board >> sq & 1 == 1, sq / 8 == rank);
        }
        for (file, board) in files.iter().enumerate() {
            assert_eq!(board >> sq & 1 == 1, sq % 8 == file);
        }
    }
}

#[test]
fn regions_hold_their_squares() {
    for sq in 0..64usize {
        let file = sq % 8;
        let rank = sq / 8;
        assert_eq!(LIGHT_SQUARES >> sq & 1 == 1, (file + rank) % 2 == 1);
        assert_eq!(DARK_SQUARES >> sq & 1 == 1, (file + rank) % 2 == 0);
        assert_eq!(WHITE_HALF >> sq & 1 == 1, rank < 4);
        assert_eq!(BLACK_HALF >> sq & 1 == 1, rank >= 4);
        assert_eq!(QUEENSIDE >> sq & 1 == 1, file < 4);
        assert_eq!(KINGSIDE >> sq & 1 == 1, file >= 4);
        assert_eq!(CENTER_4 >> sq & 1 == 1, (3..=4).contains(&file) && (3..=4).contains(&rank));
        assert_eq!(CENTER_16 >> sq & 1 == 1, (2..=5).contains(&file) && (2..=5).contains(&rank));
        assert_eq!(EDGE >> sq & 1 == 1, file == 0 || file == 7 || rank == 0 || rank == 7);
        assert_eq!(FULL >> sq & 1, 1);
        assert_eq!(EMPTY >> sq & 1, 0);
    }
    // a1 is a dark square, h1 a light one.
    assert_eq!(DARK_SQUARES & Square::A1.bitboard(), Square::A1.bitboard());
    assert_eq!(LIGHT_SQUARES & Square::H1.bitboard(), Square::H1.bitboard());
}
