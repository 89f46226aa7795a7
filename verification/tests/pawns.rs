use chessboard::board::bitboard::BitBoard;
use chessboard::board::position::{Position, PositionBuilder};
use chessboard::movegen::pawns::{
    black_pawn_attacks, black_pawn_captures, black_pawn_moves, black_pawn_pushes,
    white_pawn_attacks, white_pawn_captures, white_pawn_moves, white_pawn_pushes,
};

const DUMMY_WHITE_PAWNS: BitBoard = 0x00_00_00_08_20_00_11_00;
const DUMMY_BLACK_PAWNS: BitBoard = 0x00_0c_00_20_00_82_00_00;

fn dummy_position() -> Position {
    PositionBuilder::new()
        .white_pawns(DUMMY_WHITE_PAWNS)
        .black_pawns(DUMMY_BLACK_PAWNS)
        .build()
}

#[test]
fn white_pawns_can_push() {
    let position = dummy_position();
    let white_pawn_pushes = white_pawn_pushes(position.white_pawns(), position.empty_squares());
    assert_eq!(white_pawn_pushes, 0x80011110000);
}

#[test]
fn white_pawns_can_capture() {
    let position = dummy_position();
    let white_pawn_captures =
        white_pawn_captures(position.white_pawns(), position.black_pieces());
    assert_eq!(white_pawn_captures, 0x20000);
}

#[test]
fn white_pawns_can_move() {
    let position = dummy_position();
    let white_pawn_moves = white_pawn_moves(position.white_pawns(), &position);
    assert_eq!(white_pawn_moves, 0x80011110000 | 0x20000);
}

#[test]
fn black_pawns_can_push() {
    let position = dummy_position();
    let black_pawn_pushes = black_pawn_pushes(position.black_pawns(), position.empty_squares());
    assert_eq!(black_pawn_pushes, 0xc0400008200);
}

#[test]
fn black_pawns_can_capture() {
    let position = dummy_position();
    let black_pawn_captures =
        black_pawn_captures(position.black_pawns(), position.white_pieces());
    assert_eq!(black_pawn_captures, 0x100);
}

#[test]
fn black_pawns_can_move() {
    let position = dummy_position();
    let black_pawn_moves = black_pawn_moves(position.black_pawns(), &position);
    assert_eq!(black_pawn_moves, 0xc0400008200 | 0x100);
}

#[test]
fn en_passant_is_allowed() {
    let position = PositionBuilder::new()
        .white_pawns(0x800000000)
        .black_pawns(0x400000000)
        .en_passant_targets(0x40008000000)
        .build();

    let white_pawn_moves = white_pawn_moves(position.white_pawns(), &position);
    let black_pawn_moves = black_pawn_moves(position.black_pawns(), &position);

    assert_eq!(white_pawn_moves, 0xc0000000000);
    assert_eq!(black_pawn_moves, 0xc000000);
}

#[test]
fn pawn_attacks_stay_on_their_rank_neighbours() {
    // a2 attacks b3 only, h2 attacks g3 only: nothing wraps round the edge.
    assert_eq!(white_pawn_attacks(0x0100), 0x02_00_00);
    assert_eq!(white_pawn_attacks(0x8000), 0x40_00_00);
    assert_eq!(white_pawn_attacks(0x1000), 0x28_00_00);
    // a7 attacks b6 only, h7 attacks g6 only.
    assert_eq!(black_pawn_attacks(0x00_01_00_00_00_00_00_00), 0x00_00_02_00_00_00_00_00);
    assert_eq!(black_pawn_attacks(0x00_80_00_00_00_00_00_00), 0x00_00_40_00_00_00_00_00);
    // From the last rank there is nothing ahead.
    assert_eq!(white_pawn_attacks(0xff_00_00_00_00_00_00_00), 0);
    assert_eq!(black_pawn_attacks(0xff), 0);
}

#[test]
fn a_blocked_pawn_cannot_jump() {
    // White pawn on e2, a piece on e3: no push at all.
    assert_eq!(white_pawn_pushes(0x1000, !(0x1000 | 0x10_00_00)), 0);
    // White pawn on e2, a piece on e4: the single step only.
    assert_eq!(white_pawn_pushes(0x1000, !(0x1000 | 0x10_00_00_00)), 0x10_00_00);
    // White pawn on e3 steps once: e5 is not on the fourth rank.
    assert_eq!(white_pawn_pushes(0x10_00_00, !0x10_00_00), 0x10_00_00_00);
    // Black pawn on e7 and an empty board: e6 and e5.
    assert_eq!(
        black_pawn_pushes(0x00_10_00_00_00_00_00_00, !0x00_10_00_00_00_00_00_00),
        0x00_00_10_10_00_00_00_00
    );
    // Black pawn on e7, a piece on e6: no push at all.
    assert_eq!(
        black_pawn_pushes(
            0x00_10_00_00_00_00_00_00,
            !(0x00_10_00_00_00_00_00_00 | 0x00_00_10_00_00_00_00_00)
        ),
        0
    );
}

#[test]
fn move_generation_gives_the_same_answer_twice() {
    let position = dummy_position();
    let first = white_pawn_moves(position.white_pawns(), &position);
    let second = white_pawn_moves(position.white_pawns(), &position);
    assert_eq!(first, second);
    let first = black_pawn_moves(position.black_pawns(), &position);
    let second = black_pawn_moves(position.black_pawns(), &position);
    assert_eq!(first, second);
    assert_eq!(position, dummy_position());
}
