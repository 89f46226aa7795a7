use chessboard::board::bitboard::{BitBoard, EMPTY, FULL};
use chessboard::board::position::{Position, PositionBuilder};
use chessboard::board::square::Square;
use chessboard::movegen::kings::{king_attacks, king_moves};
use chessboard::movegen::knights::{knight_attacks, knight_moves};
use chessboard::movegen::pawns::{black_pawn_moves, white_pawn_moves};
use chessboard::movegen::sliders::{
    bishop_attacks, bishop_moves, queen_attacks, queen_moves, ray_attacks, rook_attacks,
    rook_moves,
};
use chessboard::movegen::steps::{step, Direction};
use chessboard::movegen::{gen_moves, gen_moves_for_piece};
use chessboard::piece::{Piece, PieceType};

const DIRECTIONS: [(Direction, i32, i32); 8] = [
    (Direction::North, 0, 1),
    (Direction::NorthEast, 1, 1),
    (Direction::East, 1, 0),
    (Direction::SouthEast, 1, -1),
    (Direction::South, 0, -1),
    (Direction::SouthWest, -1, -1),
    (Direction::West, -1, 0),
    (Direction::NorthWest, -1, 1),
];

const KNIGHT_JUMPS: [(i32, i32); 8] =
    [(1, 2), (2, 1), (2, -1), (1, -2), (-1, -2), (-2, -1), (-2, 1), (-1, 2)];

/// Square by square: the squares `files` and `ranks` away from a square
/// of `from`.
fn moved_by_hand(from: BitBoard, files: i32, ranks: i32) -> BitBoard {
    let mut out = 0u64;
    for sq in 0..64i32 {
        if from >> sq & 1 == 1 {
            let file = sq % 8 + files;
            let rank = sq / 8 + ranks;
            if (0..8).contains(&file) && (0..8).contains(&rank) {
                out |= 1u64 << (rank * 8 + file);
            }
        }
    }
    out
}

/// Square by square: walk from each square of `from` until the edge or the
/// first occupied square, which is still reached.
fn ray_by_hand(from: BitBoard, occupied: BitBoard, files: i32, ranks: i32) -> BitBoard {
    let mut out = 0u64;
    for sq in 0..64i32 {
        if from >> sq & 1 == 1 {
            let mut file = sq % 8 + files;
            let mut rank = sq / 8 + ranks;
            while (0..8).contains(&file) && (0..8).contains(&rank) {
                let to = rank * 8 + file;
                out |= 1u64 << to;
                if occupied >> to & 1 == 1 {
                    break;
                }
                file += files;
                rank += ranks;
            }
        }
    }
    out
}

/// A fixed sequence of scattered boards.
fn scattered(seed: u64) -> BitBoard {
    let mut x = seed.wrapping_mul(0x9e37_79b9_7f4a_7c15).wrapping_add(0x2545_f491_4f6c_dd1d);
    x ^= x >> 29;
    x = x.wrapping_mul(0xbf58_476d_1ce4_e5b9);
    x ^= x >> 32;
    x
}

#[test]
fn steps_move_one_square_and_drop_the_edge() {
    for (direction, files, ranks) in DIRECTIONS {
        for sq in 0..64 {
            let from = 1u64 << sq;
            assert_eq!(step(from, direction), moved_by_hand(from, files, ranks));
        }
        for seed in 0..50 {
            let from = scattered(seed);
            assert_eq!(step(from, direction), moved_by_hand(from, files, ranks));
        }
        assert_eq!(step(EMPTY, direction), EMPTY);
    }
    assert_eq!(step(Square::H4.bitboard(), Direction::East), EMPTY);
    assert_eq!(step(Square::A4.bitboard(), Direction::West), EMPTY);
    assert_eq!(step(Square::D8.bitboard(), Direction::North), EMPTY);
    assert_eq!(step(Square::D1.bitboard(), Direction::South), EMPTY);
    assert_eq!(step(Square::D4.bitboard(), Direction::NorthEast), Square::E5.bitboard());
    assert_eq!(step(Square::D4.bitboard(), Direction::SouthWest), Square::C3.bitboard());
}

#[test]
fn knights_jump_in_an_l() {
    assert_eq!(knight_attacks(Square::B1.bitboard()), 0x00_00_00_00_00_05_08_00);
    assert_eq!(knight_attacks(Square::A1.bitboard()), 0x00_00_00_00_00_02_04_00);
    assert_eq!(knight_attacks(Square::H8.bitboard()), 0x00_20_40_00_00_00_00_00);
    assert_eq!(knight_attacks(Square::D4.bitboard()), 0x00_00_14_22_00_22_14_00);
    assert_eq!(
        knight_attacks(Square::G2.bitboard() | Square::B7.bitboard()),
        0x08_00_08_05_a0_10_00_10
    );
    assert_eq!(knight_attacks(EMPTY), EMPTY);
}

#[test]
fn knights_agree_with_a_walk_over_the_squares() {
    for seed in 0..200 {
        let knights = if seed < 64 { 1u64 << seed } else { scattered(seed) };
        let mut by_hand = 0u64;
        for (files, ranks) in KNIGHT_JUMPS {
            by_hand |= moved_by_hand(knights, files, ranks);
        }
        assert_eq!(knight_attacks(knights), by_hand);
        let own = scattered(seed + 1000);
        assert_eq!(knight_moves(knights, own), by_hand & !own);
    }
}

#[test]
fn knights_do_not_land_on_their_own_side() {
    let own = 0x00_00_10_00_08_02_00_00;
    assert_eq!(knight_moves(Square::D4.bitboard(), own), 0x00_00_04_22_00_20_14_00);
    assert_eq!(knight_moves(Square::D4.bitboard(), FULL), EMPTY);
    assert_eq!(knight_moves(Square::D4.bitboard(), EMPTY), 0x00_00_14_22_00_22_14_00);
}

#[test]
fn kings_step_to_the_squares_around() {
    assert_eq!(king_attacks(Square::E1.bitboard()), 0x00_00_00_00_00_00_38_28);
    assert_eq!(king_attacks(Square::A1.bitboard()), 0x00_00_00_00_00_00_03_02);
    assert_eq!(king_attacks(Square::H8.bitboard()), 0x40_c0_00_00_00_00_00_00);
    assert_eq!(king_attacks(Square::A4.bitboard()), 0x00_00_00_03_02_03_00_00);
    assert_eq!(king_attacks(Square::H5.bitboard()), 0x00_00_c0_40_c0_00_00_00);
    assert_eq!(king_attacks(Square::D4.bitboard()), 0x00_00_00_1c_14_1c_00_00);
    assert_eq!(king_moves(Square::D4.bitboard(), 0x00_00_00_18_08_00_00_00), 0x00_00_00_04_14_1c_00_00);
    assert_eq!(king_moves(Square::D4.bitboard(), FULL), EMPTY);
}

#[test]
fn kings_agree_with_a_walk_over_the_squares() {
    for seed in 0..200 {
        let kings = if seed < 64 { 1u64 << seed } else { scattered(seed) };
        let mut by_hand = 0u64;
        for (_, files, ranks) in DIRECTIONS {
            by_hand |= moved_by_hand(kings, files, ranks);
        }
        assert_eq!(king_attacks(kings), by_hand);
        let own = scattered(seed + 2000);
        assert_eq!(king_moves(kings, own), by_hand & !own);
    }
}

#[test]
fn rays_run_to_the_edge_of_an_empty_board() {
    let a1 = Square::A1.bitboard();
    assert_eq!(ray_attacks(a1, a1, Direction::North), 0x01_01_01_01_01_01_01_00);
    assert_eq!(ray_attacks(a1, a1, Direction::East), 0x00_00_00_00_00_00_00_fe);
    assert_eq!(ray_attacks(a1, a1, Direction::NorthEast), 0x80_40_20_10_08_04_02_00);
    assert_eq!(ray_attacks(a1, a1, Direction::South), EMPTY);
    assert_eq!(ray_attacks(a1, a1, Direction::West), EMPTY);
    assert_eq!(ray_attacks(a1, a1, Direction::SouthWest), EMPTY);
    let h8 = Square::H8.bitboard();
    assert_eq!(ray_attacks(h8, h8, Direction::SouthWest), 0x00_40_20_10_08_04_02_01);
    let a8 = Square::A8.bitboard();
    assert_eq!(ray_attacks(a8, a8, Direction::SouthEast), 0x00_02_04_08_10_20_40_80);
    let h1 = Square::H1.bitboard();
    assert_eq!(ray_attacks(h1, h1, Direction::NorthWest), 0x01_02_04_08_10_20_40_00);
}

#[test]
fn rays_end_on_the_first_occupied_square() {
    let h4 = Square::H4.bitboard();
    let e4 = Square::E4.bitboard();
    assert_eq!(ray_attacks(h4, h4 | e4, Direction::West), 0x00_00_00_00_70_00_00_00);
    let d8 = Square::D8.bitboard();
    let d3 = Square::D3.bitboard();
    assert_eq!(ray_attacks(d8, d8 | d3, Direction::South), 0x00_08_08_08_08_08_00_00);
    // Two sliders at once: the one on a1 is stopped on c1, the one on a2 is not.
    let rooks = Square::A1.bitboard() | Square::A2.bitboard();
    let occupied = rooks | Square::C1.bitboard();
    assert_eq!(ray_attacks(rooks, occupied, Direction::East), 0x00_00_00_00_00_00_fe_06);
    // A slider next to another one attacks it and stops there.
    let pair = Square::A1.bitboard() | Square::B1.bitboard();
    assert_eq!(ray_attacks(pair, pair, Direction::East), 0xfe);
    assert_eq!(ray_attacks(EMPTY, FULL, Direction::East), EMPTY);
}

#[test]
fn rays_agree_with_a_walk_over_the_squares() {
    for (direction, files, ranks) in DIRECTIONS {
        for seed in 0..300 {
            let from = if seed < 64 { 1u64 << seed } else { scattered(seed) & scattered(seed + 7) };
            let occupied = match seed % 4 {
                0 => from,
                1 => from | scattered(seed + 3000),
                2 => from | (scattered(seed + 4000) & scattered(seed + 5000)),
                _ => scattered(seed + 6000),
            };
            assert_eq!(
                ray_attacks(from, occupied, direction),
                ray_by_hand(from, occupied, files, ranks)
            );
        }
    }
}

#[test]
fn rooks_bishops_and_queens_on_an_empty_board() {
    let a1 = Square::A1.bitboard();
    let c1 = Square::C1.bitboard();
    let d4 = Square::D4.bitboard();
    let h1 = Square::H1.bitboard();
    assert_eq!(rook_attacks(a1, a1), 0x01_01_01_01_01_01_01_fe);
    assert_eq!(rook_attacks(d4, d4), 0x08_08_08_08_f7_08_08_08);
    assert_eq!(bishop_attacks(c1, c1), 0x00_00_80_40_20_11_0a_00);
    assert_eq!(bishop_attacks(d4, d4), 0x80_41_22_14_00_14_22_41);
    assert_eq!(queen_attacks(d4, d4), 0x88_49_2a_1c_f7_1c_2a_49);
    assert_eq!(queen_attacks(h1, h1), 0x81_82_84_88_90_a0_c0_7f);
}

#[test]
fn sliders_stop_at_blockers() {
    let d4 = Square::D4.bitboard();
    assert_eq!(rook_attacks(d4, 0x00_00_08_00_2a_00_08_00), 0x00_00_08_08_36_08_08_00);
    assert_eq!(bishop_attacks(d4, 0x00_00_22_00_08_10_02_00), 0x00_00_22_14_00_14_02_00);
}

#[test]
fn sliders_capture_the_enemy_and_stop_before_their_own() {
    let d4 = Square::D4.bitboard();
    let own = 0x00_00_00_00_28_00_08_00;
    let enemy = 0x00_48_00_00_01_00_02_00;
    assert_eq!(rook_moves(d4, own, enemy), 0x00_08_08_08_17_08_00_00);
    assert_eq!(bishop_moves(d4, own, enemy), 0x00_41_22_14_00_14_22_40);
    assert_eq!(queen_moves(d4, own, enemy), 0x00_49_2a_1c_17_1c_22_40);
}

#[test]
fn sliders_agree_with_a_walk_over_the_squares() {
    for seed in 0..300 {
        let from = if seed < 64 { 1u64 << seed } else { scattered(seed) & scattered(seed + 11) };
        let own = from | (scattered(seed + 7000) & scattered(seed + 8000));
        let enemy = scattered(seed + 9000) & scattered(seed + 10000) & !own;
        let occupied = own | enemy;
        let mut straight = 0u64;
        let mut diagonal = 0u64;
        for (_, files, ranks) in DIRECTIONS {
            let ray = ray_by_hand(from, occupied, files, ranks);
            if files == 0 || ranks == 0 {
                straight |= ray;
            } else {
                diagonal |= ray;
            }
        }
        assert_eq!(rook_attacks(from, occupied), straight);
        assert_eq!(bishop_attacks(from, occupied), diagonal);
        assert_eq!(queen_attacks(from, occupied), straight | diagonal);
        assert_eq!(rook_moves(from, own, enemy), straight & !own);
        assert_eq!(bishop_moves(from, own, enemy), diagonal & !own);
        assert_eq!(queen_moves(from, own, enemy), (straight | diagonal) & !own);
    }
}

#[test]
fn moves_from_the_starting_position() {
    let start = Position::starting_position();
    assert_eq!(
        gen_moves(&start, PieceType::WhiteKnight, start.white_knights()),
        0x00_00_00_00_00_a5_00_00
    );
    assert_eq!(
        gen_moves(&start, PieceType::BlackKnight, start.black_knights()),
        0x00_00_a5_00_00_00_00_00
    );
    assert_eq!(
        gen_moves(&start, PieceType::WhitePawn, start.white_pawns()),
        0x00_00_00_00_ff_ff_00_00
    );
    assert_eq!(
        gen_moves(&start, PieceType::BlackPawn, start.black_pawns()),
        0x00_00_ff_ff_00_00_00_00
    );
    assert_eq!(gen_moves(&start, PieceType::WhiteBishop, start.white_bishops()), EMPTY);
    assert_eq!(gen_moves(&start, PieceType::WhiteRook, start.white_rooks()), EMPTY);
    assert_eq!(gen_moves(&start, PieceType::WhiteQueen, start.white_queens()), EMPTY);
    assert_eq!(gen_moves(&start, PieceType::WhiteKing, start.white_kings()), EMPTY);
    assert_eq!(gen_moves(&start, PieceType::BlackBishop, start.black_bishops()), EMPTY);
    assert_eq!(gen_moves(&start, PieceType::BlackRook, start.black_rooks()), EMPTY);
    assert_eq!(gen_moves(&start, PieceType::BlackQueen, start.black_queens()), EMPTY);
    assert_eq!(gen_moves(&start, PieceType::BlackKing, start.black_kings()), EMPTY);
}

#[test]
fn moves_of_a_single_piece() {
    let start = Position::starting_position();
    let knight = Piece { piece_type: PieceType::WhiteKnight, square: Square::B1 };
    assert_eq!(gen_moves_for_piece(&start, knight), 0x00_00_00_00_00_05_00_00);
    let pawn = Piece { piece_type: PieceType::WhitePawn, square: Square::E2 };
    assert_eq!(gen_moves_for_piece(&start, pawn), 0x00_00_00_00_10_10_00_00);
    let pawn = Piece { piece_type: PieceType::BlackPawn, square: Square::E7 };
    assert_eq!(gen_moves_for_piece(&start, pawn), 0x00_00_10_10_00_00_00_00);
    let rook = Piece { piece_type: PieceType::WhiteRook, square: Square::A1 };
    assert_eq!(gen_moves_for_piece(&start, rook), EMPTY);
}

#[test]
fn each_side_moves_against_the_other() {
    // White: queen d4, pawns d2 and f4. Black: pawns d7 and g7, rook a4,
    // bishop b2.
    let position = PositionBuilder::new()
        .white_queens(Square::D4.bitboard())
        .white_pawns(Square::D2.bitboard() | Square::F4.bitboard())
        .black_pawns(Square::D7.bitboard() | Square::G7.bitboard())
        .black_rooks(Square::A4.bitboard())
        .black_bishops(Square::B2.bitboard())
        .build();
    assert_eq!(position.white_pieces(), 0x00_00_00_00_28_00_08_00);
    assert_eq!(position.black_pieces(), 0x00_48_00_00_01_00_02_00);
    assert_eq!(
        gen_moves(&position, PieceType::WhiteQueen, position.white_queens()),
        0x00_49_2a_1c_17_1c_22_40
    );
    assert_eq!(
        gen_moves(&position, PieceType::WhiteRook, position.white_queens()),
        0x00_08_08_08_17_08_00_00
    );
    assert_eq!(
        gen_moves(&position, PieceType::WhiteBishop, position.white_queens()),
        0x00_41_22_14_00_14_22_40
    );
    // The black rook on a4 runs up to the white queen and takes it.
    let own = position.black_pieces();
    let enemy = position.white_pieces();
    assert_eq!(
        gen_moves(&position, PieceType::BlackRook, position.black_rooks()),
        rook_moves(position.black_rooks(), own, enemy)
    );
    assert_eq!(
        gen_moves(&position, PieceType::BlackRook, position.black_rooks()),
        0x01_01_01_01_0e_01_01_01
    );
    assert_eq!(
        gen_moves(&position, PieceType::BlackKing, Square::C5.bitboard()),
        king_moves(Square::C5.bitboard(), own)
    );
    assert_eq!(
        gen_moves(&position, PieceType::WhitePawn, position.white_pawns()),
        white_pawn_moves(position.white_pawns(), &position)
    );
    assert_eq!(
        gen_moves(&position, PieceType::BlackPawn, position.black_pawns()),
        black_pawn_moves(position.black_pawns(), &position)
    );
}

#[test]
fn generating_twice_gives_the_same_moves() {
    let position = PositionBuilder::new()
        .white_queens(Square::D4.bitboard())
        .white_knights(Square::B1.bitboard())
        .black_rooks(Square::D8.bitboard())
        .build();
    let before = position;
    for piece_type in [
        PieceType::WhitePawn,
        PieceType::WhiteKnight,
        PieceType::WhiteBishop,
        PieceType::WhiteRook,
        PieceType::WhiteQueen,
        PieceType::WhiteKing,
        PieceType::BlackPawn,
        PieceType::BlackKnight,
        PieceType::BlackBishop,
        PieceType::BlackRook,
        PieceType::BlackQueen,
        PieceType::BlackKing,
    ] {
        let first = gen_moves(&position, piece_type, Square::D4.bitboard());
        let second = gen_moves(&position, piece_type, Square::D4.bitboard());
        assert_eq!(first, second);
    }
    assert_eq!(position, before);
}
