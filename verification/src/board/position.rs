//! Positions: where the pieces of both sides stand, and how to build one.

use crate::board::bitboard::{
    all_squares, has_square, lemma_connective_squares, lemma_disjoint_boards,
    lemma_empty_iff_no_squares, lemma_empty_squares, lemma_file_masks, lemma_rank_masks, on_board,
    rank_squares, BitBoard, IsBitBoard, EMPTY, FILE_A, FILE_B, FILE_C, FILE_D, FILE_E, FILE_F,
    FILE_G, FILE_H, RANK_1, RANK_2, RANK_7, RANK_8,
};
use crate::board::square::Square;
use crate::piece::{PieceColor, PieceType};
use vstd::prelude::*;

verus! {

/// One where the board holds the square, zero where it does not.
pub open spec fn holds(board: BitBoard, sq: int) -> int {
    if has_square(board, sq) {
        1
    } else {
        0
    }
}

/// What a [`SingleColorPosition`] stands for: one board for each kind of
/// piece of one side.
pub struct SideView {
    pub pawns: BitBoard,
    pub knights: BitBoard,
    pub bishops: BitBoard,
    pub rooks: BitBoard,
    pub queens: BitBoard,
    pub kings: BitBoard,
}

impl SideView {
    /// Every square that holds a piece of this side.
    pub open spec fn pieces(self) -> BitBoard {
        self.pawns | self.knights | self.bishops | self.rooks | self.queens | self.kings
    }

    /// How many of the six boards hold square `sq`.
    pub open spec fn claims(self, sq: int) -> int {
        holds(self.pawns, sq) + holds(self.knights, sq) + holds(self.bishops, sq) + holds(
            self.rooks,
            sq,
        ) + holds(self.queens, sq) + holds(self.kings, sq)
    }

    /// The squares that more than one of the six boards holds.
    pub open spec fn overlap(self) -> BitBoard {
        let two = self.pawns | self.knights;
        let three = two | self.bishops;
        let four = three | self.rooks;
        let five = four | self.queens;
        (self.pawns & self.knights) | (two & self.bishops) | (three & self.rooks) | (four
            & self.queens) | (five & self.kings)
    }
}

/// What a [`Position`] stands for: the boards of both sides and the squares
/// on which a capture en passant may land.
pub struct PositionView {
    pub white: SideView,
    pub black: SideView,
    pub en_passant_targets: BitBoard,
}

impl PositionView {
    /// Every occupied square.
    pub open spec fn all_pieces(self) -> BitBoard {
        self.white.pieces() | self.black.pieces()
    }

    /// Every square that holds no piece.
    pub open spec fn empty_squares(self) -> BitBoard {
        !self.all_pieces()
    }

    /// Every square that holds a piece of the given side.
    pub open spec fn of_color(self, color: PieceColor) -> BitBoard {
        match color {
            PieceColor::White => self.white.pieces(),
            PieceColor::Black => self.black.pieces(),
        }
    }

    /// The board of the given piece.
    pub open spec fn of_piece(self, piece: PieceType) -> BitBoard {
        match piece {
            PieceType::WhitePawn => self.white.pawns,
            PieceType::WhiteKnight => self.white.knights,
            PieceType::WhiteBishop => self.white.bishops,
            PieceType::WhiteRook => self.white.rooks,
            PieceType::WhiteQueen => self.white.queens,
            PieceType::WhiteKing => self.white.kings,
            PieceType::BlackPawn => self.black.pawns,
            PieceType::BlackKnight => self.black.knights,
            PieceType::BlackBishop => self.black.bishops,
            PieceType::BlackRook => self.black.rooks,
            PieceType::BlackQueen => self.black.queens,
            PieceType::BlackKing => self.black.kings,
        }
    }

    /// The piece found on square `sq` by looking through the twelve boards
    /// in the order of [`PieceType`], or `None` where none of them holds the
    /// square.
    pub open spec fn piece_at(self, sq: int) -> Option<PieceType> {
        if has_square(self.white.pawns, sq) {
            Some(PieceType::WhitePawn)
        } else if has_square(self.white.knights, sq) {
            Some(PieceType::WhiteKnight)
        } else if has_square(self.white.bishops, sq) {
            Some(PieceType::WhiteBishop)
        } else if has_square(self.white.rooks, sq) {
            Some(PieceType::WhiteRook)
        } else if has_square(self.white.queens, sq) {
            Some(PieceType::WhiteQueen)
        } else if has_square(self.white.kings, sq) {
            Some(PieceType::WhiteKing)
        } else if has_square(self.black.pawns, sq) {
            Some(PieceType::BlackPawn)
        } else if has_square(self.black.knights, sq) {
            Some(PieceType::BlackKnight)
        } else if has_square(self.black.bishops, sq) {
            Some(PieceType::BlackBishop)
        } else if has_square(self.black.rooks, sq) {
            Some(PieceType::BlackRook)
        } else if has_square(self.black.queens, sq) {
            Some(PieceType::BlackQueen)
        } else if has_square(self.black.kings, sq) {
            Some(PieceType::BlackKing)
        } else {
            None
        }
    }

    /// How many of the twelve boards hold square `sq`.
    pub open spec fn claims(self, sq: int) -> int {
        self.white.claims(sq) + self.black.claims(sq)
    }

    /// Whether no square is held twice: the twelve boards are disjoint from
    /// one another, so the pieces of one side do not overlap and the two
    /// sides do not overlap.
    pub open spec fn is_valid(self) -> bool {
        forall|sq: int| #[trigger] self.claims(sq) <= 1
    }

    /// The squares that more than one of the twelve boards holds.
    pub open spec fn overlap(self) -> BitBoard {
        self.white.overlap() | self.black.overlap() | (self.white.pieces() & self.black.pieces())
    }

    /// The position at the start of a game.
    pub open spec fn starting() -> PositionView {
        PositionView {
            white: SideView {
                pawns: RANK_2,
                knights: RANK_1 & (FILE_B | FILE_G),
                bishops: RANK_1 & (FILE_C | FILE_F),
                rooks: RANK_1 & (FILE_A | FILE_H),
                queens: RANK_1 & FILE_D,
                kings: RANK_1 & FILE_E,
            },
            black: SideView {
                pawns: RANK_7,
                knights: RANK_8 & (FILE_B | FILE_G),
                bishops: RANK_8 & (FILE_C | FILE_F),
                rooks: RANK_8 & (FILE_A | FILE_H),
                queens: RANK_8 & FILE_D,
                kings: RANK_8 & FILE_E,
            },
            en_passant_targets: EMPTY,
        }
    }
}

/// One side's occupancy is the union of its six boards: it holds a square
/// exactly when at least one of the six does. The side's overlap holds a
/// square exactly when at least two of them do.
pub proof fn lemma_side_claims(side: SideView)
    ensures
        side.pieces().squares() == side.pawns.squares().union(side.knights.squares()).union(
            side.bishops.squares(),
        ).union(side.rooks.squares()).union(side.queens.squares()).union(side.kings.squares()),
        forall|sq: int| #[trigger] has_square(side.pieces(), sq) <==> side.claims(sq) >= 1,
        forall|sq: int| #[trigger] has_square(side.overlap(), sq) <==> side.claims(sq) >= 2,
{
    let two = side.pawns | side.knights;
    let three = two | side.bishops;
    let four = three | side.rooks;
    let five = four | side.queens;
    lemma_connective_squares(side.pawns, side.knights);
    lemma_connective_squares(two, side.bishops);
    lemma_connective_squares(three, side.rooks);
    lemma_connective_squares(four, side.queens);
    lemma_connective_squares(five, side.kings);
    let twice_2 = side.pawns & side.knights;
    let twice_3 = twice_2 | (two & side.bishops);
    let twice_4 = twice_3 | (three & side.rooks);
    let twice_5 = twice_4 | (four & side.queens);
    lemma_connective_squares(twice_2, two & side.bishops);
    lemma_connective_squares(twice_3, three & side.rooks);
    lemma_connective_squares(twice_4, four & side.queens);
    lemma_connective_squares(twice_5, five & side.kings);
}

/// The occupancy of a position is the union of the two sides' occupancy:
/// a square is occupied exactly when at least one of the twelve boards
/// holds it, and empty exactly when none does. The overlap holds a square
/// exactly when at least two boards do, so a position is valid exactly
/// when its overlap is empty.
pub proof fn lemma_claims(position: PositionView)
    ensures
        position.all_pieces().squares() == position.white.pieces().squares().union(
            position.black.pieces().squares(),
        ),
        position.empty_squares().squares() == all_squares().difference(
            position.all_pieces().squares(),
        ),
        forall|sq: int| #[trigger] has_square(position.all_pieces(), sq) <==> position.claims(sq) >= 1,
        forall|sq: int| #[trigger]
            has_square(position.empty_squares(), sq) <==> on_board(sq) && position.claims(sq) == 0,
        forall|sq: int| #[trigger] has_square(position.overlap(), sq) <==> position.claims(sq) >= 2,
        position.is_valid() <==> position.overlap() == EMPTY,
{
    let white = position.white;
    let black = position.black;
    lemma_side_claims(white);
    lemma_side_claims(black);
    lemma_connective_squares(white.pieces(), black.pieces());
    lemma_connective_squares(position.all_pieces(), position.all_pieces());
    lemma_connective_squares(white.overlap(), black.overlap());
    lemma_connective_squares(white.overlap() | black.overlap(), white.pieces() & black.pieces());
    lemma_empty_iff_no_squares(position.overlap());
    if position.is_valid() {
        assert forall|sq: int| !has_square(position.overlap(), sq) by {
            assert(position.claims(sq) <= 1);
        }
    }
    if position.overlap() == EMPTY {
        assert forall|sq: int| #[trigger] position.claims(sq) <= 1 by {
            assert(!has_square(position.overlap(), sq));
        }
    }
}

/// The starting position is valid, and its boards hold the squares of the
/// opening array: the white pawns fill the second rank and the black pawns
/// the seventh; on the first and on the eighth rank the rooks stand on
/// files a and h, the knights on b and g, the bishops on c and f, the queen
/// on d and the king on e. No capture en passant is possible.
pub proof fn lemma_starting_position()
    ensures
        PositionView::starting().is_valid(),
        PositionView::starting().white.pawns.squares() == rank_squares(1),
        PositionView::starting().white.knights.squares() == set![1int, 6int],
        PositionView::starting().white.bishops.squares() == set![2int, 5int],
        PositionView::starting().white.rooks.squares() == set![0int, 7int],
        PositionView::starting().white.queens.squares() == set![3int],
        PositionView::starting().white.kings.squares() == set![4int],
        PositionView::starting().black.pawns.squares() == rank_squares(6),
        PositionView::starting().black.knights.squares() == set![57int, 62int],
        PositionView::starting().black.bishops.squares() == set![58int, 61int],
        PositionView::starting().black.rooks.squares() == set![56int, 63int],
        PositionView::starting().black.queens.squares() == set![59int],
        PositionView::starting().black.kings.squares() == set![60int],
        PositionView::starting().en_passant_targets.squares() == Set::<int>::empty(),
{
    let start = PositionView::starting();
    lemma_rank_masks();
    lemma_file_masks();
    lemma_empty_squares();
    lemma_connective_squares(FILE_B, FILE_G);
    lemma_connective_squares(FILE_C, FILE_F);
    lemma_connective_squares(FILE_A, FILE_H);
    lemma_connective_squares(RANK_1, FILE_B | FILE_G);
    lemma_connective_squares(RANK_1, FILE_C | FILE_F);
    lemma_connective_squares(RANK_1, FILE_A | FILE_H);
    lemma_connective_squares(RANK_1, FILE_D);
    lemma_connective_squares(RANK_1, FILE_E);
    lemma_connective_squares(RANK_8, FILE_B | FILE_G);
    lemma_connective_squares(RANK_8, FILE_C | FILE_F);
    lemma_connective_squares(RANK_8, FILE_A | FILE_H);
    lemma_connective_squares(RANK_8, FILE_D);
    lemma_connective_squares(RANK_8, FILE_E);
    assert(start.white.knights.squares() =~= set![1int, 6int]);
    assert(start.white.bishops.squares() =~= set![2int, 5int]);
    assert(start.white.rooks.squares() =~= set![0int, 7int]);
    assert(start.white.queens.squares() =~= set![3int]);
    assert(start.white.kings.squares() =~= set![4int]);
    assert(start.black.knights.squares() =~= set![57int, 62int]);
    assert(start.black.bishops.squares() =~= set![58int, 61int]);
    assert(start.black.rooks.squares() =~= set![56int, 63int]);
    assert(start.black.queens.squares() =~= set![59int]);
    assert(start.black.kings.squares() =~= set![60int]);
    assert forall|sq: int| #[trigger] start.claims(sq) <= 1 by {}
}

/// The look-up answers `None` exactly when the square is empty, and a
/// piece that it answers with does stand on the square. In a valid
/// position it finds whatever stands there: it answers with a piece
/// exactly when that piece's board holds the square.
pub proof fn lemma_piece_at(position: PositionView, sq: int, piece: PieceType)
    ensures
        position.piece_at(sq) is None <==> !has_square(position.all_pieces(), sq),
        position.piece_at(sq) == Some(piece) ==> has_square(position.of_piece(piece), sq),
        position.is_valid() && has_square(position.of_piece(piece), sq) ==> position.piece_at(sq)
            == Some(piece),
{
    lemma_claims(position);
    assert(position.is_valid() ==> position.claims(sq) <= 1);
}

/// In a valid position no square holds two pieces.
pub proof fn lemma_one_piece_on_a_square(
    position: PositionView,
    sq: int,
    first: PieceType,
    second: PieceType,
)
    requires
        position.is_valid(),
        has_square(position.of_piece(first), sq),
        has_square(position.of_piece(second), sq),
    ensures
        first == second,
{
    lemma_piece_at(position, sq, first);
    lemma_piece_at(position, sq, second);
}

/// The pieces of one side: a board for each kind of piece, and the union of
/// the six, which is computed when the value is made and never changed on
/// its own.
#[derive(Clone, Copy, Debug, PartialEq, Eq)]
pub struct SingleColorPosition {
    pawns: BitBoard,
    knights: BitBoard,
    bishops: BitBoard,
    rooks: BitBoard,
    queens: BitBoard,
    kings: BitBoard,
    pieces: BitBoard,
}

impl View for SingleColorPosition {
    type V = SideView;

    closed spec fn view(&self) -> SideView {
        SideView {
            pawns: self.pawns,
            knights: self.knights,
            bishops: self.bishops,
            rooks: self.rooks,
            queens: self.queens,
            kings: self.kings,
        }
    }
}

impl SingleColorPosition {
    #[verifier::type_invariant]
    spec fn union_is_kept(&self) -> bool {
        self.pieces == self@.pieces()
    }

    /// The pieces of one side, from a board for each kind.
    pub fn new(
        pawns: BitBoard,
        knights: BitBoard,
        bishops: BitBoard,
        rooks: BitBoard,
        queens: BitBoard,
        kings: BitBoard,
    ) -> (side: Self)
        ensures
            side@ == (SideView { pawns, knights, bishops, rooks, queens, kings }),
    {
        let pieces = pawns | knights | bishops | rooks | queens | kings;
        Self { pawns, knights, bishops, rooks, queens, kings, pieces }
    }

    /// The board of this side's pawns.
    pub fn pawns(&self) -> (board: &BitBoard)
        ensures
            *board == self@.pawns,
    {
        &self.pawns
    }

    /// The board of this side's knights.
    pub fn knights(&self) -> (board: &BitBoard)
        ensures
            *board == self@.knights,
    {
        &self.knights
    }

    /// The board of this side's bishops.
    pub fn bishops(&self) -> (board: &BitBoard)
        ensures
            *board == self@.bishops,
    {
        &self.bishops
    }

    /// The board of this side's rooks.
    pub fn rooks(&self) -> (board: &BitBoard)
        ensures
            *board == self@.rooks,
    {
        &self.rooks
    }

    /// The board of this side's queens.
    pub fn queens(&self) -> (board: &BitBoard)
        ensures
            *board == self@.queens,
    {
        &self.queens
    }

    /// The board of this side's kings.
    pub fn kings(&self) -> (board: &BitBoard)
        ensures
            *board == self@.kings,
    {
        &self.kings
    }

    /// The squares that more than one of the six boards holds.
    fn overlap(&self) -> (twice: BitBoard)
        ensures
            twice == self@.overlap(),
    {
        let two = self.pawns | self.knights;
        let three = two | self.bishops;
        let four = three | self.rooks;
        let five = four | self.queens;
        (self.pawns & self.knights) | (two & self.bishops) | (three & self.rooks) | (four
            & self.queens) | (five & self.kings)
    }
}

/// A position: the pieces of both sides, the union of all of them, and the
/// squares on which a capture en passant may land. The piece boards are
/// fixed when the position is made; only the en passant squares can be
/// replaced afterwards.
#[derive(Clone, Copy, Debug, PartialEq, Eq)]
pub struct Position {
    white: SingleColorPosition,
    black: SingleColorPosition,
    all_pieces: BitBoard,
    en_passant_targets: BitBoard,
}

impl View for Position {
    type V = PositionView;

    closed spec fn view(&self) -> PositionView {
        PositionView {
            white: self.white@,
            black: self.black@,
            en_passant_targets: self.en_passant_targets,
        }
    }
}

impl Position {
    #[verifier::type_invariant]
    spec fn union_is_kept(&self) -> bool {
        self.all_pieces == self.white.pieces | self.black.pieces
    }

    /// The position with the given pieces and en passant squares.
    pub fn new(
        white: SingleColorPosition,
        black: SingleColorPosition,
        en_passant_targets: BitBoard,
    ) -> (position: Self)
        ensures
            position@ == (PositionView { white: white@, black: black@, en_passant_targets }),
    {
        let all_pieces = white.pieces | black.pieces;
        Self { white, black, all_pieces, en_passant_targets }
    }

    /// The position at the start of a game: the pawns of each side on its
    /// second rank and its pieces behind them, rooks in the corners, then
    /// knights, then bishops, the queen on file d and the king on file e.
    pub fn starting_position() -> (position: Self)
        ensures
            position@ == PositionView::starting(),
    {
        PositionBuilder::new()
            .white_pawns(RANK_2)
            .white_knights(RANK_1 & (FILE_B | FILE_G))
            .white_bishops(RANK_1 & (FILE_C | FILE_F))
            .white_rooks(RANK_1 & (FILE_A | FILE_H))
            .white_queens(RANK_1 & FILE_D)
            .white_kings(RANK_1 & FILE_E)
            .black_pawns(RANK_7)
            .black_knights(RANK_8 & (FILE_B | FILE_G))
            .black_bishops(RANK_8 & (FILE_C | FILE_F))
            .black_rooks(RANK_8 & (FILE_A | FILE_H))
            .black_queens(RANK_8 & FILE_D)
            .black_kings(RANK_8 & FILE_E)
            .build()
    }

    /// The squares on which a capture en passant may land.
    pub fn en_passant_targets(&self) -> (board: BitBoard)
        ensures
            board == self@.en_passant_targets,
    {
        self.en_passant_targets
    }

    /// Replaces the en passant squares and leaves the pieces as they were.
    pub fn set_en_passant_targets(&mut self, targets: BitBoard)
        ensures
            final(self)@ == (PositionView { en_passant_targets: targets, ..old(self)@ }),
    {
        proof {
            use_type_invariant(&*self);
        }
        self.en_passant_targets = targets;
    }

    /// Every occupied square: the union of both sides.
    pub fn all_pieces(&self) -> (board: BitBoard)
        ensures
            board == self@.all_pieces(),
            board == self@.white.pieces() | self@.black.pieces(),
    {
        proof {
            use_type_invariant(self);
            use_type_invariant(&self.white);
            use_type_invariant(&self.black);
        }
        self.all_pieces
    }

    /// Every square that holds no piece.
    pub fn empty_squares(&self) -> (board: BitBoard)
        ensures
            board == self@.empty_squares(),
            board.squares() == all_squares().difference(self@.all_pieces().squares()),
    {
        proof {
            use_type_invariant(self);
            use_type_invariant(&self.white);
            use_type_invariant(&self.black);
            lemma_claims(self@);
        }
        !self.all_pieces
    }

    /// Every square that holds a piece of the given side.
    pub fn pieces_of(&self, color: PieceColor) -> (board: BitBoard)
        ensures
            board == self@.of_color(color),
    {
        match color {
            PieceColor::White => self.white_pieces(),
            PieceColor::Black => self.black_pieces(),
        }
    }

    /// The piece that stands on the given square, if any. The twelve boards
    /// are looked through in the order of [`PieceType`]; in a valid position
    /// at most one of them holds the square.
    pub fn piece_at(&self, square: Square) -> (piece: Option<PieceType>)
        ensures
            piece == self@.piece_at(square@),
            piece is None <==> !has_square(self@.all_pieces(), square@),
            piece matches Some(found) ==> has_square(self@.of_piece(found), square@),
            forall|other: PieceType|
                self@.is_valid() && has_square(self@.of_piece(other), square@) ==> piece == Some(
                    other,
                ),
    {
        let mask = square.bitboard();
        proof {
            lemma_holds_square(self.white.pawns, mask, square@);
            lemma_holds_square(self.white.knights, mask, square@);
            lemma_holds_square(self.white.bishops, mask, square@);
            lemma_holds_square(self.white.rooks, mask, square@);
            lemma_holds_square(self.white.queens, mask, square@);
            lemma_holds_square(self.white.kings, mask, square@);
            lemma_holds_square(self.black.pawns, mask, square@);
            lemma_holds_square(self.black.knights, mask, square@);
            lemma_holds_square(self.black.bishops, mask, square@);
            lemma_holds_square(self.black.rooks, mask, square@);
            lemma_holds_square(self.black.queens, mask, square@);
            lemma_holds_square(self.black.kings, mask, square@);
            assert forall|other: PieceType|
                self@.is_valid() && has_square(self@.of_piece(other), square@) implies
                self@.piece_at(square@) == Some(other) by {
                lemma_piece_at(self@, square@, other);
            }
            lemma_piece_at(self@, square@, PieceType::WhitePawn);
            if self@.piece_at(square@) is Some {
                lemma_piece_at(self@, square@, self@.piece_at(square@)->0);
            }
        }
        if self.white.pawns & mask != 0 {
            Some(PieceType::WhitePawn)
        } else if self.white.knights & mask != 0 {
            Some(PieceType::WhiteKnight)
        } else if self.white.bishops & mask != 0 {
            Some(PieceType::WhiteBishop)
        } else if self.white.rooks & mask != 0 {
            Some(PieceType::WhiteRook)
        } else if self.white.queens & mask != 0 {
            Some(PieceType::WhiteQueen)
        } else if self.white.kings & mask != 0 {
            Some(PieceType::WhiteKing)
        } else if self.black.pawns & mask != 0 {
            Some(PieceType::BlackPawn)
        } else if self.black.knights & mask != 0 {
            Some(PieceType::BlackKnight)
        } else if self.black.bishops & mask != 0 {
            Some(PieceType::BlackBishop)
        } else if self.black.rooks & mask != 0 {
            Some(PieceType::BlackRook)
        } else if self.black.queens & mask != 0 {
            Some(PieceType::BlackQueen)
        } else if self.black.kings & mask != 0 {
            Some(PieceType::BlackKing)
        } else {
            None
        }
    }

    /// Whether the position is valid: no square is held by two of the
    /// twelve boards.
    pub fn is_valid(&self) -> (valid: bool)
        ensures
            valid == self@.is_valid(),
    {
        proof {
            use_type_invariant(&self.white);
            use_type_invariant(&self.black);
            lemma_claims(self@);
        }
        let twice = self.white.overlap() | self.black.overlap() | (self.white.pieces
            & self.black.pieces);
        twice == 0
    }

    /// The white pawns.
    pub fn white_pawns(&self) -> (board: BitBoard)
        ensures
            board == self@.white.pawns,
    {
        self.white.pawns
    }

    /// The white knights.
    pub fn white_knights(&self) -> (board: BitBoard)
        ensures
            board == self@.white.knights,
    {
        self.white.knights
    }

    /// The white bishops.
    pub fn white_bishops(&self) -> (board: BitBoard)
        ensures
            board == self@.white.bishops,
    {
        self.white.bishops
    }

    /// The white rooks.
    pub fn white_rooks(&self) -> (board: BitBoard)
        ensures
            board == self@.white.rooks,
    {
        self.white.rooks
    }

    /// The white queens.
    pub fn white_queens(&self) -> (board: BitBoard)
        ensures
            board == self@.white.queens,
    {
        self.white.queens
    }

    /// The white kings.
    pub fn white_kings(&self) -> (board: BitBoard)
        ensures
            board == self@.white.kings,
    {
        self.white.kings
    }

    /// Every square that holds a white piece: the union of the six white
    /// boards.
    pub fn white_pieces(&self) -> (board: BitBoard)
        ensures
            board == self@.white.pieces(),
            board == self@.white.pawns | self@.white.knights | self@.white.bishops | self@.white.rooks
                | self@.white.queens | self@.white.kings,
    {
        proof {
            use_type_invariant(&self.white);
        }
        self.white.pieces
    }

    /// The black pawns.
    pub fn black_pawns(&self) -> (board: BitBoard)
        ensures
            board == self@.black.pawns,
    {
        self.black.pawns
    }

    /// The black knights.
    pub fn black_knights(&self) -> (board: BitBoard)
        ensures
            board == self@.black.knights,
    {
        self.black.knights
    }

    /// The black bishops.
    pub fn black_bishops(&self) -> (board: BitBoard)
        ensures
            board == self@.black.bishops,
    {
        self.black.bishops
    }

    /// The black rooks.
    pub fn black_rooks(&self) -> (board: BitBoard)
        ensures
            board == self@.black.rooks,
    {
        self.black.rooks
    }

    /// The black queens.
    pub fn black_queens(&self) -> (board: BitBoard)
        ensures
            board == self@.black.queens,
    {
        self.black.queens
    }

    /// The black kings.
    pub fn black_kings(&self) -> (board: BitBoard)
        ensures
            board == self@.black.kings,
    {
        self.black.kings
    }

    /// Every square that holds a black piece: the union of the six black
    /// boards.
    pub fn black_pieces(&self) -> (board: BitBoard)
        ensures
            board == self@.black.pieces(),
            board == self@.black.pawns | self@.black.knights | self@.black.bishops | self@.black.rooks
                | self@.black.queens | self@.black.kings,
    {
        proof {
            use_type_invariant(&self.black);
        }
        self.black.pieces
    }

}

/// Collects the boards of a position one by one. Every board starts empty;
/// each setter replaces one board and hands the builder back, so that calls
/// can be chained. The builder does not look at whether the boards are
/// disjoint: see [`Position::is_valid`].
#[derive(Clone, Debug, PartialEq, Eq)]
pub struct PositionBuilder {
    pub white_pawns: BitBoard,
    pub white_knights: BitBoard,
    pub white_bishops: BitBoard,
    pub white_rooks: BitBoard,
    pub white_queens: BitBoard,
    pub white_kings: BitBoard,
    pub black_pawns: BitBoard,
    pub black_knights: BitBoard,
    pub black_bishops: BitBoard,
    pub black_rooks: BitBoard,
    pub black_queens: BitBoard,
    pub black_kings: BitBoard,
    pub en_passant_targets: BitBoard,
}

impl View for PositionBuilder {
    type V = PositionView;

    open spec fn view(&self) -> PositionView {
        PositionView {
            white: SideView {
                pawns: self.white_pawns,
                knights: self.white_knights,
                bishops: self.white_bishops,
                rooks: self.white_rooks,
                queens: self.white_queens,
                kings: self.white_kings,
            },
            black: SideView {
                pawns: self.black_pawns,
                knights: self.black_knights,
                bishops: self.black_bishops,
                rooks: self.black_rooks,
                queens: self.black_queens,
                kings: self.black_kings,
            },
            en_passant_targets: self.en_passant_targets,
        }
    }
}

impl PositionBuilder {
    /// A builder with every board empty.
    pub fn new() -> (builder: Self)
        ensures
            builder.white_pawns == EMPTY,
            builder.white_knights == EMPTY,
            builder.white_bishops == EMPTY,
            builder.white_rooks == EMPTY,
            builder.white_queens == EMPTY,
            builder.white_kings == EMPTY,
            builder.black_pawns == EMPTY,
            builder.black_knights == EMPTY,
            builder.black_bishops == EMPTY,
            builder.black_rooks == EMPTY,
            builder.black_queens == EMPTY,
            builder.black_kings == EMPTY,
            builder.en_passant_targets == EMPTY,
    {
        Self {
            white_pawns: 0,
            white_knights: 0,
            white_bishops: 0,
            white_rooks: 0,
            white_queens: 0,
            white_kings: 0,
            black_pawns: 0,
            black_knights: 0,
            black_bishops: 0,
            black_rooks: 0,
            black_queens: 0,
            black_kings: 0,
            en_passant_targets: 0,
        }
    }

    /// The position that holds exactly the boards collected so far. Its
    /// occupancy is the union of the sides' occupancy, and that of each
    /// side the union of its six boards.
    pub fn build(&self) -> (position: Position)
        ensures
            position@ == self@,
    {
        Position::new(self.get_white_pieces(), self.get_black_pieces(), self.en_passant_targets)
    }

    /// The white pieces collected so far.
    pub fn get_white_pieces(&self) -> (side: SingleColorPosition)
        ensures
            side@ == self@.white,
    {
        SingleColorPosition::new(
            self.white_pawns,
            self.white_knights,
            self.white_bishops,
            self.white_rooks,
            self.white_queens,
            self.white_kings,
        )
    }

    /// The black pieces collected so far.
    pub fn get_black_pieces(&self) -> (side: SingleColorPosition)
        ensures
            side@ == self@.black,
    {
        SingleColorPosition::new(
            self.black_pawns,
            self.black_knights,
            self.black_bishops,
            self.black_rooks,
            self.black_queens,
            self.black_kings,
        )
    }

    /// Replaces the white pawns and leaves every other field as it was.
    pub fn white_pawns(self, white_pawns: BitBoard) -> (builder: Self)
        ensures
            builder == (PositionBuilder { white_pawns, ..self }),
    {
        let mut builder = self;
        builder.white_pawns = white_pawns;
        builder
    }

    /// Replaces the white knights and leaves every other field as it was.
    pub fn white_knights(self, white_knights: BitBoard) -> (builder: Self)
        ensures
            builder == (PositionBuilder { white_knights, ..self }),
    {
        let mut builder = self;
        builder.white_knights = white_knights;
        builder
    }

    /// Replaces the white bishops and leaves every other field as it was.
    pub fn white_bishops(self, white_bishops: BitBoard) -> (builder: Self)
        ensures
            builder == (PositionBuilder { white_bishops, ..self }),
    {
        let mut builder = self;
        builder.white_bishops = white_bishops;
        builder
    }

    /// Replaces the white rooks and leaves every other field as it was.
    pub fn white_rooks(self, white_rooks: BitBoard) -> (builder: Self)
        ensures
            builder == (PositionBuilder { white_rooks, ..self }),
    {
        let mut builder = self;
        builder.white_rooks = white_rooks;
        builder
    }

    /// Replaces the white queens and leaves every other field as it was.
    pub fn white_queens(self, white_queens: BitBoard) -> (builder: Self)
        ensures
            builder == (PositionBuilder { white_queens, ..self }),
    {
        let mut builder = self;
        builder.white_queens = white_queens;
        builder
    }

    /// Replaces the white kings and leaves every other field as it was.
    pub fn white_kings(self, white_kings: BitBoard) -> (builder: Self)
        ensures
            builder == (PositionBuilder { white_kings, ..self }),
    {
        let mut builder = self;
        builder.white_kings = white_kings;
        builder
    }

    /// Replaces the black pawns and leaves every other field as it was.
    pub fn black_pawns(self, black_pawns: BitBoard) -> (builder: Self)
        ensures
            builder == (PositionBuilder { black_pawns, ..self }),
    {
        let mut builder = self;
        builder.black_pawns = black_pawns;
        builder
    }

    /// Replaces the black knights and leaves every other field as it was.
    pub fn black_knights(self, black_knights: BitBoard) -> (builder: Self)
        ensures
            builder == (PositionBuilder { black_knights, ..self }),
    {
        let mut builder = self;
        builder.black_knights = black_knights;
        builder
    }

    /// Replaces the black bishops and leaves every other field as it was.
    pub fn black_bishops(self, black_bishops: BitBoard) -> (builder: Self)
        ensures
            builder == (PositionBuilder { black_bishops, ..self }),
    {
        let mut builder = self;
        builder.black_bishops = black_bishops;
        builder
    }

    /// Replaces the black rooks and leaves every other field as it was.
    pub fn black_rooks(self, black_rooks: BitBoard) -> (builder: Self)
        ensures
            builder == (PositionBuilder { black_rooks, ..self }),
    {
        let mut builder = self;
        builder.black_rooks = black_rooks;
        builder
    }

    /// Replaces the black queens and leaves every other field as it was.
    pub fn black_queens(self, black_queens: BitBoard) -> (builder: Self)
        ensures
            builder == (PositionBuilder { black_queens, ..self }),
    {
        let mut builder = self;
        builder.black_queens = black_queens;
        builder
    }

    /// Replaces the black kings and leaves every other field as it was.
    pub fn black_kings(self, black_kings: BitBoard) -> (builder: Self)
        ensures
            builder == (PositionBuilder { black_kings, ..self }),
    {
        let mut builder = self;
        builder.black_kings = black_kings;
        builder
    }

    /// Replaces the en passant squares and leaves every other field as it
    /// was.
    pub fn en_passant_targets(self, targets: BitBoard) -> (builder: Self)
        ensures
            builder == (PositionBuilder { en_passant_targets: targets, ..self }),
    {
        let mut builder = self;
        builder.en_passant_targets = targets;
        builder
    }
}

/// A board shares a bit with the board of a single square exactly when it
/// holds that square.
proof fn lemma_holds_square(board: BitBoard, mask: BitBoard, sq: int)
    requires
        mask.squares() == set![sq],
    ensures
        board & mask != 0 <==> has_square(board, sq),
{
    lemma_disjoint_boards(board, mask);
    assert(mask.squares().contains(sq));
    assert(has_square(mask, sq));
    if !has_square(board, sq) {
        assert forall|other: int| !(has_square(board, other) && has_square(mask, other)) by {
            assert(mask.squares().contains(other) == has_square(mask, other));
        }
    }
}

impl vstd::std_specs::core::IndexSpecImpl<PieceColor> for Position {
    open spec fn index_req(&self, index: &PieceColor) -> bool {
        true
    }
}

impl std::ops::Index<PieceColor> for Position {
    type Output = BitBoard;

    /// Every square that holds a piece of the given side.
    fn index(&self, color: PieceColor) -> (board: &BitBoard)
        ensures
            *board == self@.of_color(color),
    {
        proof {
            use_type_invariant(&self.white);
            use_type_invariant(&self.black);
        }
        match color {
            PieceColor::White => &self.white.pieces,
            PieceColor::Black => &self.black.pieces,
        }
    }
}

impl vstd::std_specs::core::IndexSpecImpl<PieceType> for Position {
    open spec fn index_req(&self, index: &PieceType) -> bool {
        true
    }
}

impl std::ops::Index<PieceType> for Position {
    type Output = BitBoard;

    /// The board of the given piece.
    fn index(&self, piece: PieceType) -> (board: &BitBoard)
        ensures
            *board == self@.of_piece(piece),
    {
        match piece {
            PieceType::WhitePawn => &self.white.pawns,
            PieceType::WhiteKnight => &self.white.knights,
            PieceType::WhiteBishop => &self.white.bishops,
            PieceType::WhiteRook => &self.white.rooks,
            PieceType::WhiteQueen => &self.white.queens,
            PieceType::WhiteKing => &self.white.kings,
            PieceType::BlackPawn => &self.black.pawns,
            PieceType::BlackKnight => &self.black.knights,
            PieceType::BlackBishop => &self.black.bishops,
            PieceType::BlackRook => &self.black.rooks,
            PieceType::BlackQueen => &self.black.queens,
            PieceType::BlackKing => &self.black.kings,
        }
    }
}

impl vstd::std_specs::core::IndexSpecImpl<Square> for Position {
    open spec fn index_req(&self, index: &Square) -> bool {
        true
    }
}

impl std::ops::Index<Square> for Position {
    type Output = Option<PieceType>;

    /// The piece that stands on the given square, if any, as
    /// [`Position::piece_at`] finds it.
    fn index(&self, square: Square) -> (piece: &Option<PieceType>)
        ensures
            *piece == self@.piece_at(square@),
    {
        match self.piece_at(square) {
            Some(PieceType::WhitePawn) => &Some(PieceType::WhitePawn),
            Some(PieceType::WhiteKnight) => &Some(PieceType::WhiteKnight),
            Some(PieceType::WhiteBishop) => &Some(PieceType::WhiteBishop),
            Some(PieceType::WhiteRook) => &Some(PieceType::WhiteRook),
            Some(PieceType::WhiteQueen) => &Some(PieceType::WhiteQueen),
            Some(PieceType::WhiteKing) => &Some(PieceType::WhiteKing),
            Some(PieceType::BlackPawn) => &Some(PieceType::BlackPawn),
            Some(PieceType::BlackKnight) => &Some(PieceType::BlackKnight),
            Some(PieceType::BlackBishop) => &Some(PieceType::BlackBishop),
            Some(PieceType::BlackRook) => &Some(PieceType::BlackRook),
            Some(PieceType::BlackQueen) => &Some(PieceType::BlackQueen),
            Some(PieceType::BlackKing) => &Some(PieceType::BlackKing),
            None => &None,
        }
    }
}

} // verus!
