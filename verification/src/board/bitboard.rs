//! Sixty-four-bit masks over the squares of the board.
//!
//! A mask is read as a set of squares. Squares are numbered 0 to 63, files
//! a to h within a rank and ranks 1 to 8, so that square `sq` lies on file
//! `sq % 8` and rank `sq / 8` (both counted from zero).

use vstd::prelude::*;

verus! {

/// A set of squares, one bit per square: bit `i` stands for square `i`.
pub type BitBoard = u64;

pub const FULL: BitBoard = 0xff_ff_ff_ff_ff_ff_ff_ff;

pub const EMPTY: BitBoard = 0x00_00_00_00_00_00_00_00;

pub const LIGHT_SQUARES: BitBoard = 0x55_aa_55_aa_55_aa_55_aa;

pub const DARK_SQUARES: BitBoard = 0xaa_55_aa_55_aa_55_aa_55;

pub const RANK_8: BitBoard = 0xff_00_00_00_00_00_00_00;

pub const RANK_7: BitBoard = 0x00_ff_00_00_00_00_00_00;

pub const RANK_6: BitBoard = 0x00_00_ff_00_00_00_00_00;

pub const RANK_5: BitBoard = 0x00_00_00_ff_00_00_00_00;

pub const RANK_4: BitBoard = 0x00_00_00_00_ff_00_00_00;

pub const RANK_3: BitBoard = 0x00_00_00_00_00_ff_00_00;

pub const RANK_2: BitBoard = 0x00_00_00_00_00_00_ff_00;

pub const RANK_1: BitBoard = 0x00_00_00_00_00_00_00_ff;

pub const FILE_A: BitBoard = 0x01_01_01_01_01_01_01_01;

pub const FILE_B: BitBoard = 0x02_02_02_02_02_02_02_02;

pub const FILE_C: BitBoard = 0x04_04_04_04_04_04_04_04;

pub const FILE_D: BitBoard = 0x08_08_08_08_08_08_08_08;

pub const FILE_E: BitBoard = 0x10_10_10_10_10_10_10_10;

pub const FILE_F: BitBoard = 0x20_20_20_20_20_20_20_20;

pub const FILE_G: BitBoard = 0x40_40_40_40_40_40_40_40;

pub const FILE_H: BitBoard = 0x80_80_80_80_80_80_80_80;

pub const BLACK_HALF: BitBoard = 0xff_ff_ff_ff_00_00_00_00;

pub const WHITE_HALF: BitBoard = 0x00_00_00_00_ff_ff_ff_ff;

pub const QUEENSIDE: BitBoard = 0x0f_0f_0f_0f_0f_0f_0f_0f;

pub const KINGSIDE: BitBoard = 0xf0_f0_f0_f0_f0_f0_f0_f0;

pub const CENTER_4: BitBoard = 0x00_00_00_18_18_00_00_00;

pub const CENTER_16: BitBoard = 0x00_00_3c_3c_3c_3c_00_00;

pub const EDGE: BitBoard = 0xff_81_81_81_81_81_81_ff;

/// Whether `sq` numbers a square of the board.
pub open spec fn on_board(sq: int) -> bool {
    0 <= sq < 64
}

/// The file of square `sq`, 0 for file a up to 7 for file h.
pub open spec fn file_of(sq: int) -> int {
    sq % 8
}

/// The rank of square `sq`, 0 for rank 1 up to 7 for rank 8.
pub open spec fn rank_of(sq: int) -> int {
    sq / 8
}

/// Whether square `sq` belongs to `board`.
pub open spec fn has_square(board: BitBoard, sq: int) -> bool {
    on_board(sq) && (board >> (sq as u64)) & 1 == 1
}

/// Every square of the board.
pub open spec fn all_squares() -> Set<int> {
    Set::new(|sq: int| on_board(sq))
}

/// The squares of file `file`.
pub open spec fn file_squares(file: int) -> Set<int> {
    Set::new(|sq: int| on_board(sq) && file_of(sq) == file)
}

/// The squares of rank `rank`.
pub open spec fn rank_squares(rank: int) -> Set<int> {
    Set::new(|sq: int| on_board(sq) && rank_of(sq) == rank)
}

/// The squares reached by moving each square of `from` by `files` files
/// and `ranks` ranks. A square whose move would leave the board has no
/// image: nothing wraps round an edge.
pub open spec fn shifted(from: Set<int>, files: int, ranks: int) -> Set<int> {
    Set::new(
        |to: int|
            on_board(to) && 0 <= file_of(to) - files < 8 && 0 <= rank_of(to) - ranks < 8
                && from.contains(to - files - 8 * ranks),
    )
}

/// The board shifted by `amount` ranks, by a shift of the bits: up where
/// `amount` is positive and down where it is negative, and empty once the
/// shift covers the whole board.
pub open spec fn rank_shift_mask(board: BitBoard, amount: int) -> BitBoard {
    if 0 <= amount < 8 {
        board << ((8 * amount) as u64)
    } else if -8 < amount < 0 {
        board >> ((8 * (-amount)) as u64)
    } else {
        EMPTY
    }
}

/// A board that can be shifted along ranks and files.
pub trait IsBitBoard: Copy {
    /// The squares that the board stands for.
    spec fn squares(self) -> Set<int>;

    /// Moves every square up by `amount` ranks, or down where `amount` is
    /// negative. Squares pushed beyond the first or last rank are dropped.
    fn inc_rank_by(self, amount: i8) -> (moved: Self)
        ensures
            moved.squares() == shifted(self.squares(), 0, amount as int),
    ;

    /// Moves every square up one rank; the last rank is dropped.
    fn inc_rank(self) -> (moved: Self)
        ensures
            moved.squares() == shifted(self.squares(), 0, 1),
    ;

    /// Moves every square down one rank; the first rank is dropped.
    fn dec_rank(self) -> (moved: Self)
        ensures
            moved.squares() == shifted(self.squares(), 0, -1),
    ;

    /// Moves every square one file towards file h; file h is dropped rather
    /// than wrapped onto file a of the next rank.
    fn inc_file(self) -> (moved: Self)
        ensures
            moved.squares() == shifted(self.squares(), 1, 0),
    ;

    /// Moves every square one file towards file a; file a is dropped rather
    /// than wrapped onto file h of the previous rank.
    fn dec_file(self) -> (moved: Self)
        ensures
            moved.squares() == shifted(self.squares(), -1, 0),
    ;
}

impl IsBitBoard for BitBoard {
    open spec fn squares(self) -> Set<int> {
        Set::new(|sq: int| has_square(self, sq))
    }

    fn inc_rank_by(self, amount: i8) -> (moved: Self)
        ensures
            moved == rank_shift_mask(self, amount as int),
    {
        if amount >= 8 || amount <= -8 {
            proof {
                lemma_empty_squares();
                assert(EMPTY.squares() =~= shifted(self.squares(), 0, amount as int));
            }
            EMPTY
        } else if amount >= 0 {
            let by: u64 = 8 * (amount as u64);
            proof {
                lemma_shl_squares(self, by);
                assert((self << by).squares() =~= shifted(self.squares(), 0, amount as int));
            }
            self << by
        } else {
            let by: u64 = 8 * ((-amount) as u64);
            proof {
                lemma_shr_squares(self, by);
                assert((self >> by).squares() =~= shifted(self.squares(), 0, amount as int));
            }
            self >> by
        }
    }

    fn inc_rank(self) -> (moved: Self)
        ensures
            moved == self << 8u64,
    {
        proof {
            lemma_shl_squares(self, 8);
            assert((self << 8u64).squares() =~= shifted(self.squares(), 0, 1));
        }
        self << 8u64
    }

    fn dec_rank(self) -> (moved: Self)
        ensures
            moved == self >> 8u64,
    {
        proof {
            lemma_shr_squares(self, 8);
            assert((self >> 8u64).squares() =~= shifted(self.squares(), 0, -1));
        }
        self >> 8u64
    }

    fn inc_file(self) -> (moved: Self)
        ensures
            moved == (self << 1u64) & !FILE_A,
    {
        proof {
            lemma_file_masks();
            lemma_connective_squares(FILE_A, FILE_A);
            lemma_shl_kept(self, 1, !FILE_A, 1, 0);
        }
        (self << 1u64) & !FILE_A
    }

    fn dec_file(self) -> (moved: Self)
        ensures
            moved == (self >> 1u64) & !FILE_H,
    {
        proof {
            lemma_file_masks();
            lemma_connective_squares(FILE_H, FILE_H);
            lemma_shr_kept(self, 1, !FILE_H, -1, 0);
        }
        (self >> 1u64) & !FILE_H
    }
}

proof fn lemma_bits_of_shl(board: u64, by: u64, i: u64)
    by (bit_vector)
    requires
        by < 64,
        i < 64,
    ensures
        ((board << by) >> i) & 1 == 1 <==> (i >= by && (board >> ((i - by) as u64)) & 1 == 1),
{
}

proof fn lemma_bits_of_shr(board: u64, by: u64, i: u64)
    by (bit_vector)
    requires
        by < 64,
        i < 64,
    ensures
        ((board >> by) >> i) & 1 == 1 <==> (i + by < 64 && (board >> ((i + by) as u64)) & 1
            == 1),
{
}

proof fn lemma_bits_of_connectives(a: u64, b: u64, i: u64)
    by (bit_vector)
    requires
        i < 64,
    ensures
        ((a & b) >> i) & 1 == 1 <==> ((a >> i) & 1 == 1 && (b >> i) & 1 == 1),
        ((a | b) >> i) & 1 == 1 <==> ((a >> i) & 1 == 1 || (b >> i) & 1 == 1),
        ((!a) >> i) & 1 == 1 <==> !((a >> i) & 1 == 1),
        !((EMPTY >> i) & 1 == 1),
        (FULL >> i) & 1 == 1,
{
}

proof fn lemma_bits_of_files(i: u64)
    by (bit_vector)
    requires
        i < 64,
    ensures
        (FILE_A >> i) & 1 == 1 <==> i % 8 == 0,
        (FILE_B >> i) & 1 == 1 <==> i % 8 == 1,
        (FILE_C >> i) & 1 == 1 <==> i % 8 == 2,
        (FILE_D >> i) & 1 == 1 <==> i % 8 == 3,
        (FILE_E >> i) & 1 == 1 <==> i % 8 == 4,
        (FILE_F >> i) & 1 == 1 <==> i % 8 == 5,
        (FILE_G >> i) & 1 == 1 <==> i % 8 == 6,
        (FILE_H >> i) & 1 == 1 <==> i % 8 == 7,
{
}

proof fn lemma_bits_of_ranks(i: u64)
    by (bit_vector)
    requires
        i < 64,
    ensures
        (RANK_1 >> i) & 1 == 1 <==> i / 8 == 0,
        (RANK_2 >> i) & 1 == 1 <==> i / 8 == 1,
        (RANK_3 >> i) & 1 == 1 <==> i / 8 == 2,
        (RANK_4 >> i) & 1 == 1 <==> i / 8 == 3,
        (RANK_5 >> i) & 1 == 1 <==> i / 8 == 4,
        (RANK_6 >> i) & 1 == 1 <==> i / 8 == 5,
        (RANK_7 >> i) & 1 == 1 <==> i / 8 == 6,
        (RANK_8 >> i) & 1 == 1 <==> i / 8 == 7,
{
}

/// The squares of a left shift: each square moves up by `by` places, and
/// those pushed past square 63 are dropped.
pub proof fn lemma_shl_squares(board: BitBoard, by: u64)
    requires
        by < 64,
    ensures
        forall|sq: int| #[trigger]
            has_square(board << by, sq) <==> (by <= sq < 64 && has_square(board, sq - by)),
{
    assert forall|sq: int| #[trigger]
        has_square(board << by, sq) <==> (by <= sq < 64 && has_square(board, sq - by)) by {
        if on_board(sq) {
            lemma_bits_of_shl(board, by, sq as u64);
            if sq >= by {
                assert(((sq as u64) - by) as u64 == (sq - by) as u64);
            }
        }
    }
}

/// The squares of a right shift: each square moves down by `by` places,
/// and those pushed below square 0 are dropped.
pub proof fn lemma_shr_squares(board: BitBoard, by: u64)
    requires
        by < 64,
    ensures
        forall|sq: int| #[trigger]
            has_square(board >> by, sq) <==> (0 <= sq < 64 - by && has_square(board, sq + by)),
{
    assert forall|sq: int| #[trigger]
        has_square(board >> by, sq) <==> (0 <= sq < 64 - by && has_square(board, sq + by)) by {
        if on_board(sq) {
            lemma_bits_of_shr(board, by, sq as u64);
            if sq + by < 64 {
                assert(((sq as u64) + by) as u64 == (sq + by) as u64);
            }
        }
    }
}

/// Bitwise and, or and not are intersection, union and complement of the
/// squares.
pub proof fn lemma_connective_squares(a: BitBoard, b: BitBoard)
    ensures
        forall|sq: int| #[trigger] has_square(a & b, sq) <==> has_square(a, sq) && has_square(b, sq),
        forall|sq: int| #[trigger] has_square(a | b, sq) <==> has_square(a, sq) || has_square(b, sq),
        forall|sq: int| #[trigger] has_square(!a, sq) <==> on_board(sq) && !has_square(a, sq),
        (a & b).squares() == a.squares().intersect(b.squares()),
        (a | b).squares() == a.squares().union(b.squares()),
        (!a).squares() == all_squares().difference(a.squares()),
{
    assert forall|sq: int| #[trigger]
        has_square(a & b, sq) <==> has_square(a, sq) && has_square(b, sq) by {
        if on_board(sq) {
            lemma_bits_of_connectives(a, b, sq as u64);
        }
    }
    assert forall|sq: int| #[trigger]
        has_square(a | b, sq) <==> has_square(a, sq) || has_square(b, sq) by {
        if on_board(sq) {
            lemma_bits_of_connectives(a, b, sq as u64);
        }
    }
    assert forall|sq: int| #[trigger] has_square(!a, sq) <==> on_board(sq) && !has_square(a, sq) by {
        if on_board(sq) {
            lemma_bits_of_connectives(a, b, sq as u64);
        }
    }
    assert((a & b).squares() =~= a.squares().intersect(b.squares()));
    assert((a | b).squares() =~= a.squares().union(b.squares()));
    assert((!a).squares() =~= all_squares().difference(a.squares()));
}

/// The empty board has no square and the full board has them all.
pub proof fn lemma_empty_squares()
    ensures
        forall|sq: int| !#[trigger] has_square(EMPTY, sq),
        forall|sq: int| #[trigger] has_square(FULL, sq) <==> on_board(sq),
        EMPTY.squares() == Set::<int>::empty(),
        FULL.squares() == all_squares(),
{
    assert forall|sq: int| !#[trigger] has_square(EMPTY, sq) by {
        if on_board(sq) {
            lemma_bits_of_connectives(0, 0, sq as u64);
        }
    }
    assert forall|sq: int| #[trigger] has_square(FULL, sq) <==> on_board(sq) by {
        if on_board(sq) {
            lemma_bits_of_connectives(0, 0, sq as u64);
        }
    }
    assert(EMPTY.squares() =~= Set::<int>::empty());
    assert(FULL.squares() =~= all_squares());
}

/// Each file constant holds exactly the squares of its file.
pub proof fn lemma_file_masks()
    ensures
        forall|sq: int| #[trigger] has_square(FILE_A, sq) <==> on_board(sq) && file_of(sq) == 0,
        forall|sq: int| #[trigger] has_square(FILE_B, sq) <==> on_board(sq) && file_of(sq) == 1,
        forall|sq: int| #[trigger] has_square(FILE_C, sq) <==> on_board(sq) && file_of(sq) == 2,
        forall|sq: int| #[trigger] has_square(FILE_D, sq) <==> on_board(sq) && file_of(sq) == 3,
        forall|sq: int| #[trigger] has_square(FILE_E, sq) <==> on_board(sq) && file_of(sq) == 4,
        forall|sq: int| #[trigger] has_square(FILE_F, sq) <==> on_board(sq) && file_of(sq) == 5,
        forall|sq: int| #[trigger] has_square(FILE_G, sq) <==> on_board(sq) && file_of(sq) == 6,
        forall|sq: int| #[trigger] has_square(FILE_H, sq) <==> on_board(sq) && file_of(sq) == 7,
        FILE_A.squares() == file_squares(0),
        FILE_B.squares() == file_squares(1),
        FILE_C.squares() == file_squares(2),
        FILE_D.squares() == file_squares(3),
        FILE_E.squares() == file_squares(4),
        FILE_F.squares() == file_squares(5),
        FILE_G.squares() == file_squares(6),
        FILE_H.squares() == file_squares(7),
{
    assert forall|sq: int|
        #![trigger has_square(FILE_A, sq)]
        #![trigger has_square(FILE_B, sq)]
        #![trigger has_square(FILE_C, sq)]
        #![trigger has_square(FILE_D, sq)]
        #![trigger has_square(FILE_E, sq)]
        #![trigger has_square(FILE_F, sq)]
        #![trigger has_square(FILE_G, sq)]
        #![trigger has_square(FILE_H, sq)]
        on_board(sq) implies {
        &&& (has_square(FILE_A, sq) <==> file_of(sq) == 0)
        &&& (has_square(FILE_B, sq) <==> file_of(sq) == 1)
        &&& (has_square(FILE_C, sq) <==> file_of(sq) == 2)
        &&& (has_square(FILE_D, sq) <==> file_of(sq) == 3)
        &&& (has_square(FILE_E, sq) <==> file_of(sq) == 4)
        &&& (has_square(FILE_F, sq) <==> file_of(sq) == 5)
        &&& (has_square(FILE_G, sq) <==> file_of(sq) == 6)
        &&& (has_square(FILE_H, sq) <==> file_of(sq) == 7)
    } by {
        lemma_bits_of_files(sq as u64);
    }
    assert(FILE_A.squares() =~= file_squares(0));
    assert(FILE_B.squares() =~= file_squares(1));
    assert(FILE_C.squares() =~= file_squares(2));
    assert(FILE_D.squares() =~= file_squares(3));
    assert(FILE_E.squares() =~= file_squares(4));
    assert(FILE_F.squares() =~= file_squares(5));
    assert(FILE_G.squares() =~= file_squares(6));
    assert(FILE_H.squares() =~= file_squares(7));
}

/// Each rank constant holds exactly the squares of its rank.
pub proof fn lemma_rank_masks()
    ensures
        forall|sq: int| #[trigger] has_square(RANK_1, sq) <==> on_board(sq) && rank_of(sq) == 0,
        forall|sq: int| #[trigger] has_square(RANK_2, sq) <==> on_board(sq) && rank_of(sq) == 1,
        forall|sq: int| #[trigger] has_square(RANK_3, sq) <==> on_board(sq) && rank_of(sq) == 2,
        forall|sq: int| #[trigger] has_square(RANK_4, sq) <==> on_board(sq) && rank_of(sq) == 3,
        forall|sq: int| #[trigger] has_square(RANK_5, sq) <==> on_board(sq) && rank_of(sq) == 4,
        forall|sq: int| #[trigger] has_square(RANK_6, sq) <==> on_board(sq) && rank_of(sq) == 5,
        forall|sq: int| #[trigger] has_square(RANK_7, sq) <==> on_board(sq) && rank_of(sq) == 6,
        forall|sq: int| #[trigger] has_square(RANK_8, sq) <==> on_board(sq) && rank_of(sq) == 7,
        RANK_1.squares() == rank_squares(0),
        RANK_2.squares() == rank_squares(1),
        RANK_3.squares() == rank_squares(2),
        RANK_4.squares() == rank_squares(3),
        RANK_5.squares() == rank_squares(4),
        RANK_6.squares() == rank_squares(5),
        RANK_7.squares() == rank_squares(6),
        RANK_8.squares() == rank_squares(7),
{
    assert forall|sq: int|
        #![trigger has_square(RANK_1, sq)]
        #![trigger has_square(RANK_2, sq)]
        #![trigger has_square(RANK_3, sq)]
        #![trigger has_square(RANK_4, sq)]
        #![trigger has_square(RANK_5, sq)]
        #![trigger has_square(RANK_6, sq)]
        #![trigger has_square(RANK_7, sq)]
        #![trigger has_square(RANK_8, sq)]
        on_board(sq) implies {
        &&& (has_square(RANK_1, sq) <==> rank_of(sq) == 0)
        &&& (has_square(RANK_2, sq) <==> rank_of(sq) == 1)
        &&& (has_square(RANK_3, sq) <==> rank_of(sq) == 2)
        &&& (has_square(RANK_4, sq) <==> rank_of(sq) == 3)
        &&& (has_square(RANK_5, sq) <==> rank_of(sq) == 4)
        &&& (has_square(RANK_6, sq) <==> rank_of(sq) == 5)
        &&& (has_square(RANK_7, sq) <==> rank_of(sq) == 6)
        &&& (has_square(RANK_8, sq) <==> rank_of(sq) == 7)
    } by {
        lemma_bits_of_ranks(sq as u64);
    }
    assert(RANK_1.squares() =~= rank_squares(0));
    assert(RANK_2.squares() =~= rank_squares(1));
    assert(RANK_3.squares() =~= rank_squares(2));
    assert(RANK_4.squares() =~= rank_squares(3));
    assert(RANK_5.squares() =~= rank_squares(4));
    assert(RANK_6.squares() =~= rank_squares(5));
    assert(RANK_7.squares() =~= rank_squares(6));
    assert(RANK_8.squares() =~= rank_squares(7));
}

/// A left shift by `files + 8 * ranks` places, cut down to a mask `keep`
/// of the files that a move by `files` files can reach, moves every square
/// by `files` files and `ranks` ranks without wrapping.
pub proof fn lemma_shl_kept(board: BitBoard, by: u64, keep: BitBoard, files: int, ranks: int)
    requires
        by < 64,
        by == files + 8 * ranks,
        -8 < files < 8,
        forall|sq: int| #[trigger]
            has_square(keep, sq) <==> on_board(sq) && 0 <= file_of(sq) - files < 8,
    ensures
        ((board << by) & keep).squares() == shifted(board.squares(), files, ranks),
{
    lemma_shl_squares(board, by);
    lemma_connective_squares(board << by, keep);
    assert(((board << by) & keep).squares() =~= shifted(board.squares(), files, ranks));
}

/// A right shift by `-(files + 8 * ranks)` places, cut down to a mask
/// `keep` of the files that a move by `files` files can reach, moves every
/// square by `files` files and `ranks` ranks without wrapping.
pub proof fn lemma_shr_kept(board: BitBoard, by: u64, keep: BitBoard, files: int, ranks: int)
    requires
        by < 64,
        by == -(files + 8 * ranks),
        -8 < files < 8,
        forall|sq: int| #[trigger]
            has_square(keep, sq) <==> on_board(sq) && 0 <= file_of(sq) - files < 8,
    ensures
        ((board >> by) & keep).squares() == shifted(board.squares(), files, ranks),
{
    lemma_shr_squares(board, by);
    lemma_connective_squares(board >> by, keep);
    assert(((board >> by) & keep).squares() =~= shifted(board.squares(), files, ranks));
}

proof fn lemma_bits_of_regions(i: u64)
    by (bit_vector)
    requires
        i < 64,
    ensures
        (LIGHT_SQUARES >> i) & 1 == 1 <==> (i % 8) % 2 != (i / 8) % 2,
        (DARK_SQUARES >> i) & 1 == 1 <==> (i % 8) % 2 == (i / 8) % 2,
        (WHITE_HALF >> i) & 1 == 1 <==> i / 8 < 4,
        (BLACK_HALF >> i) & 1 == 1 <==> i / 8 >= 4,
        (QUEENSIDE >> i) & 1 == 1 <==> i % 8 < 4,
        (KINGSIDE >> i) & 1 == 1 <==> i % 8 >= 4,
        (CENTER_4 >> i) & 1 == 1 <==> 3 <= i % 8 <= 4 && 3 <= i / 8 <= 4,
        (CENTER_16 >> i) & 1 == 1 <==> 2 <= i % 8 <= 5 && 2 <= i / 8 <= 5,
        (EDGE >> i) & 1 == 1 <==> i % 8 == 0 || i % 8 == 7 || i / 8 == 0 || i / 8 == 7,
{
}

proof fn lemma_complementary_masks()
    by (bit_vector)
    ensures
        LIGHT_SQUARES | DARK_SQUARES == FULL,
        LIGHT_SQUARES & DARK_SQUARES == EMPTY,
        BLACK_HALF | WHITE_HALF == FULL,
        BLACK_HALF & WHITE_HALF == EMPTY,
        KINGSIDE | QUEENSIDE == FULL,
        KINGSIDE & QUEENSIDE == EMPTY,
{
}

/// The squares numbered below `n`, as a mask.
spec fn squares_below(n: u64) -> u64 {
    if n >= 64 {
        FULL
    } else {
        !(FULL << n)
    }
}

proof fn lemma_bits_agree_step(a: u64, b: u64, n: u64)
    by (bit_vector)
    ensures
        n < 64 && a & squares_below(n) == b & squares_below(n) && ((a >> n) & 1 == 1) == ((b >> n)
            & 1 == 1) ==> a & squares_below((n + 1) as u64) == b & squares_below((n + 1) as u64),
        a & squares_below(0) == b & squares_below(0),
        a & squares_below(64) == a,
{
}

proof fn lemma_bits_agree_below(a: BitBoard, b: BitBoard, n: u64)
    requires
        n <= 64,
        forall|sq: int| has_square(a, sq) == has_square(b, sq),
    ensures
        a & squares_below(n) == b & squares_below(n),
    decreases n,
{
    if n == 0 {
        lemma_bits_agree_step(a, b, 0);
    } else {
        let m = (n - 1) as u64;
        lemma_bits_agree_below(a, b, m);
        assert(has_square(a, m as int) == has_square(b, m as int));
        lemma_bits_agree_step(a, b, m);
    }
}

/// A board is determined by its squares: two boards that stand for the
/// same set of squares are the same mask.
pub proof fn lemma_squares_determine_board(a: BitBoard, b: BitBoard)
    requires
        a.squares() == b.squares(),
    ensures
        a == b,
{
    assert forall|sq: int| has_square(a, sq) == has_square(b, sq) by {
        assert(a.squares().contains(sq) == has_square(a, sq));
        assert(b.squares().contains(sq) == has_square(b, sq));
    }
    lemma_bits_agree_below(a, b, 64);
    lemma_bits_agree_step(a, a, 0);
    lemma_bits_agree_step(b, b, 0);
}

/// What the named regions of the board hold: the two colour complexes,
/// each side's half, the two wings, the small and the large centre, and
/// the rim.
pub proof fn lemma_region_masks()
    ensures
        forall|sq: int| #[trigger]
            has_square(LIGHT_SQUARES, sq) <==> on_board(sq) && (file_of(sq) + rank_of(sq)) % 2
                == 1,
        forall|sq: int| #[trigger]
            has_square(DARK_SQUARES, sq) <==> on_board(sq) && (file_of(sq) + rank_of(sq)) % 2
                == 0,
        forall|sq: int| #[trigger] has_square(WHITE_HALF, sq) <==> on_board(sq) && rank_of(sq) < 4,
        forall|sq: int| #[trigger] has_square(BLACK_HALF, sq) <==> on_board(sq) && rank_of(sq) >= 4,
        forall|sq: int| #[trigger] has_square(QUEENSIDE, sq) <==> on_board(sq) && file_of(sq) < 4,
        forall|sq: int| #[trigger] has_square(KINGSIDE, sq) <==> on_board(sq) && file_of(sq) >= 4,
        forall|sq: int| #[trigger]
            has_square(CENTER_4, sq) <==> on_board(sq) && 3 <= file_of(sq) <= 4 && 3 <= rank_of(sq)
                <= 4,
        forall|sq: int| #[trigger]
            has_square(CENTER_16, sq) <==> on_board(sq) && 2 <= file_of(sq) <= 5 && 2 <= rank_of(
                sq,
            ) <= 5,
        forall|sq: int| #[trigger]
            has_square(EDGE, sq) <==> on_board(sq) && (file_of(sq) == 0 || file_of(sq) == 7
                || rank_of(sq) == 0 || rank_of(sq) == 7),
{
    assert forall|sq: int|
        #![trigger has_square(LIGHT_SQUARES, sq)]
        #![trigger has_square(DARK_SQUARES, sq)]
        #![trigger has_square(WHITE_HALF, sq)]
        #![trigger has_square(BLACK_HALF, sq)]
        #![trigger has_square(QUEENSIDE, sq)]
        #![trigger has_square(KINGSIDE, sq)]
        #![trigger has_square(CENTER_4, sq)]
        #![trigger has_square(CENTER_16, sq)]
        #![trigger has_square(EDGE, sq)]
        on_board(sq) implies {
        &&& (has_square(LIGHT_SQUARES, sq) <==> (file_of(sq) + rank_of(sq)) % 2 == 1)
        &&& (has_square(DARK_SQUARES, sq) <==> (file_of(sq) + rank_of(sq)) % 2 == 0)
        &&& (has_square(WHITE_HALF, sq) <==> rank_of(sq) < 4)
        &&& (has_square(BLACK_HALF, sq) <==> rank_of(sq) >= 4)
        &&& (has_square(QUEENSIDE, sq) <==> file_of(sq) < 4)
        &&& (has_square(KINGSIDE, sq) <==> file_of(sq) >= 4)
        &&& (has_square(CENTER_4, sq) <==> 3 <= file_of(sq) <= 4 && 3 <= rank_of(sq) <= 4)
        &&& (has_square(CENTER_16, sq) <==> 2 <= file_of(sq) <= 5 && 2 <= rank_of(sq) <= 5)
        &&& (has_square(EDGE, sq) <==> (file_of(sq) == 0 || file_of(sq) == 7 || rank_of(sq) == 0
            || rank_of(sq) == 7))
    } by {
        lemma_bits_of_regions(sq as u64);
    }
}

/// The two colour complexes, the two halves and the two wings each split
/// the board: the two regions of a pair cover every square between them
/// and have no square in common.
pub proof fn lemma_complementary_regions()
    ensures
        LIGHT_SQUARES | DARK_SQUARES == FULL,
        LIGHT_SQUARES & DARK_SQUARES == EMPTY,
        BLACK_HALF | WHITE_HALF == FULL,
        BLACK_HALF & WHITE_HALF == EMPTY,
        KINGSIDE | QUEENSIDE == FULL,
        KINGSIDE & QUEENSIDE == EMPTY,
        LIGHT_SQUARES.squares().union(DARK_SQUARES.squares()) == all_squares(),
        LIGHT_SQUARES.squares().disjoint(DARK_SQUARES.squares()),
        BLACK_HALF.squares().union(WHITE_HALF.squares()) == all_squares(),
        BLACK_HALF.squares().disjoint(WHITE_HALF.squares()),
        KINGSIDE.squares().union(QUEENSIDE.squares()) == all_squares(),
        KINGSIDE.squares().disjoint(QUEENSIDE.squares()),
{
    lemma_complementary_masks();
    lemma_region_masks();
    assert(LIGHT_SQUARES.squares().union(DARK_SQUARES.squares()) =~= all_squares());
    assert(BLACK_HALF.squares().union(WHITE_HALF.squares()) =~= all_squares());
    assert(KINGSIDE.squares().union(QUEENSIDE.squares()) =~= all_squares());
}

/// A board is the empty board exactly when it has no square.
pub proof fn lemma_empty_iff_no_squares(board: BitBoard)
    ensures
        board == EMPTY <==> board.squares() == Set::<int>::empty(),
        board == EMPTY <==> (forall|sq: int| !has_square(board, sq)),
{
    lemma_empty_squares();
    if board.squares() == Set::<int>::empty() {
        lemma_squares_determine_board(board, EMPTY);
    }
    if forall|sq: int| !has_square(board, sq) {
        assert(board.squares() =~= Set::<int>::empty());
    }
    if board == EMPTY {
        assert forall|sq: int| !has_square(board, sq) by {
            assert(!has_square(EMPTY, sq));
        }
    }
}

/// Two boards have no common bit exactly when they share no square.
pub proof fn lemma_disjoint_boards(a: BitBoard, b: BitBoard)
    ensures
        a & b == EMPTY <==> a.squares().disjoint(b.squares()),
        a & b == EMPTY <==> (forall|sq: int| !(has_square(a, sq) && has_square(b, sq))),
{
    lemma_connective_squares(a, b);
    lemma_empty_iff_no_squares(a & b);
    if a.squares().disjoint(b.squares()) {
        assert forall|sq: int| !has_square(a & b, sq) by {
            assert(a.squares().contains(sq) == has_square(a, sq));
            assert(b.squares().contains(sq) == has_square(b, sq));
        }
    }
    if forall|sq: int| !(has_square(a, sq) && has_square(b, sq)) {
        assert forall|sq: int| !has_square(a & b, sq) by {
            assert(!(has_square(a, sq) && has_square(b, sq)));
        }
    }
    if a & b == EMPTY {
        assert forall|sq: int| !(has_square(a, sq) && has_square(b, sq)) by {
            assert(!has_square(a & b, sq));
        }
        assert(a.squares().disjoint(b.squares()));
    }
}

} // verus!
