//! Pseudo-legal moves of the sliding pieces: bishops, rooks and queens.
//!
//! A slider moves any number of steps in one direction. It steps onto a
//! square and, if nothing stands there, may step on; the first occupied
//! square on its way is attacked too, and ends the ray. It may land on any
//! attacked square that does not hold a piece of its own side.

use crate::board::bitboard::{
    file_of, lemma_connective_squares, lemma_empty_squares, on_board, rank_of, shifted, BitBoard,
    IsBitBoard, EMPTY,
};
use crate::movegen::steps::{lemma_step, step, step_mask, Direction};
use vstd::prelude::*;

verus! {

/// The squares reached from `from` in at most `steps` steps of `files`
/// files and `ranks` ranks each: every first step, and from each square so
/// reached that is not among the `blockers`, what the remaining steps reach.
pub open spec fn slide(
    from: Set<int>,
    blockers: Set<int>,
    files: int,
    ranks: int,
    steps: nat,
) -> Set<int>
    decreases steps,
{
    if steps == 0 {
        Set::empty()
    } else {
        let first = shifted(from, files, ranks);
        first.union(slide(first.difference(blockers), blockers, files, ranks, (steps - 1) as nat))
    }
}

/// The squares that sliders on `from` attack along one direction: no ray
/// on the board is longer than seven steps.
pub open spec fn ray_targets(from: Set<int>, occupied: Set<int>, direction: Direction) -> Set<int> {
    slide(from, occupied, direction.files(), direction.ranks(), 7)
}

/// The squares that rooks on `rooks` attack: the rays along the ranks and
/// the files.
pub open spec fn rook_attack_targets(rooks: Set<int>, occupied: Set<int>) -> Set<int> {
    ray_targets(rooks, occupied, Direction::North).union(
        ray_targets(rooks, occupied, Direction::East),
    ).union(ray_targets(rooks, occupied, Direction::South)).union(
        ray_targets(rooks, occupied, Direction::West),
    )
}

/// The squares that bishops on `bishops` attack: the rays along the
/// diagonals.
pub open spec fn bishop_attack_targets(bishops: Set<int>, occupied: Set<int>) -> Set<int> {
    ray_targets(bishops, occupied, Direction::NorthEast).union(
        ray_targets(bishops, occupied, Direction::SouthEast),
    ).union(ray_targets(bishops, occupied, Direction::SouthWest)).union(
        ray_targets(bishops, occupied, Direction::NorthWest),
    )
}

/// The squares that queens on `queens` attack: those of a rook and those of
/// a bishop.
pub open spec fn queen_attack_targets(queens: Set<int>, occupied: Set<int>) -> Set<int> {
    rook_attack_targets(queens, occupied).union(bishop_attack_targets(queens, occupied))
}

/// The squares that the rooks can move to: those they attack over the
/// pieces of both sides, but for the squares of their own side.
pub open spec fn rook_move_targets(rooks: Set<int>, own: Set<int>, enemy: Set<int>) -> Set<int> {
    rook_attack_targets(rooks, own.union(enemy)).difference(own)
}

/// The squares that the bishops can move to: those they attack over the
/// pieces of both sides, but for the squares of their own side.
pub open spec fn bishop_move_targets(bishops: Set<int>, own: Set<int>, enemy: Set<int>) -> Set<int> {
    bishop_attack_targets(bishops, own.union(enemy)).difference(own)
}

/// The squares that the queens can move to: those they attack over the
/// pieces of both sides, but for the squares of their own side.
pub open spec fn queen_move_targets(queens: Set<int>, own: Set<int>, enemy: Set<int>) -> Set<int> {
    queen_attack_targets(queens, own.union(enemy)).difference(own)
}

/// The board that a slide gives, by steps and masks: `reached` together
/// with what `steps` more steps from `front` reach over the `occupied`
/// squares.
pub open spec fn slide_mask(
    reached: BitBoard,
    front: BitBoard,
    occupied: BitBoard,
    direction: Direction,
    steps: nat,
) -> BitBoard
    decreases steps,
{
    if steps == 0 {
        reached
    } else {
        let first = step_mask(front, direction);
        slide_mask(reached | first, first & !occupied, occupied, direction, (steps - 1) as nat)
    }
}

/// The board of squares attacked along one direction, by steps and masks.
pub open spec fn ray_attacks_mask(from: BitBoard, occupied: BitBoard, direction: Direction) -> BitBoard {
    slide_mask(EMPTY, from, occupied, direction, 7)
}

/// The board of squares that rooks attack, by steps and masks.
pub open spec fn rook_attacks_mask(rooks: BitBoard, occupied: BitBoard) -> BitBoard {
    ray_attacks_mask(rooks, occupied, Direction::North) | ray_attacks_mask(
        rooks,
        occupied,
        Direction::East,
    ) | ray_attacks_mask(rooks, occupied, Direction::South) | ray_attacks_mask(
        rooks,
        occupied,
        Direction::West,
    )
}

/// The board of squares that bishops attack, by steps and masks.
pub open spec fn bishop_attacks_mask(bishops: BitBoard, occupied: BitBoard) -> BitBoard {
    ray_attacks_mask(bishops, occupied, Direction::NorthEast) | ray_attacks_mask(
        bishops,
        occupied,
        Direction::SouthEast,
    ) | ray_attacks_mask(bishops, occupied, Direction::SouthWest) | ray_attacks_mask(
        bishops,
        occupied,
        Direction::NorthWest,
    )
}

/// The board of squares that queens attack, by steps and masks.
pub open spec fn queen_attacks_mask(queens: BitBoard, occupied: BitBoard) -> BitBoard {
    rook_attacks_mask(queens, occupied) | bishop_attacks_mask(queens, occupied)
}

/// The steps and masks of a slide give what was reached before together
/// with the squares that the slide reaches.
pub proof fn lemma_slide(
    reached: BitBoard,
    front: BitBoard,
    occupied: BitBoard,
    direction: Direction,
    steps: nat,
)
    ensures
        slide_mask(reached, front, occupied, direction, steps).squares() == reached.squares().union(
            slide(front.squares(), occupied.squares(), direction.files(), direction.ranks(), steps),
        ),
    decreases steps,
{
    if steps == 0 {
        assert(reached.squares() =~= reached.squares().union(Set::empty()));
    } else {
        let first = step_mask(front, direction);
        let next = first & !occupied;
        lemma_step(front, direction);
        lemma_connective_squares(occupied, occupied);
        lemma_connective_squares(first, !occupied);
        lemma_connective_squares(reached, first);
        assert(next.squares() =~= first.squares().difference(occupied.squares()));
        lemma_slide(reached | first, next, occupied, direction, (steps - 1) as nat);
        assert(slide_mask(reached, front, occupied, direction, steps).squares()
            =~= reached.squares().union(
            slide(front.squares(), occupied.squares(), direction.files(), direction.ranks(), steps),
        ));
    }
}

/// The steps and masks of a ray give the squares attacked along it.
pub proof fn lemma_ray_attacks(from: BitBoard, occupied: BitBoard, direction: Direction)
    ensures
        ray_attacks_mask(from, occupied, direction).squares() == ray_targets(
            from.squares(),
            occupied.squares(),
            direction,
        ),
{
    lemma_slide(EMPTY, from, occupied, direction, 7);
    lemma_empty_squares();
    assert(ray_attacks_mask(from, occupied, direction).squares() =~= ray_targets(
        from.squares(),
        occupied.squares(),
        direction,
    ));
}

/// The squares that sliders on `from` attack in one direction over the
/// `occupied` squares: each ray runs up to and including the first occupied
/// square, or to the edge of the board.
pub fn ray_attacks(from: BitBoard, occupied: BitBoard, direction: Direction) -> (attacks: BitBoard)
    ensures
        attacks == ray_attacks_mask(from, occupied, direction),
        attacks.squares() == ray_targets(from.squares(), occupied.squares(), direction),
{
    let mut reached: BitBoard = EMPTY;
    let mut front: BitBoard = from;
    let mut left: u8 = 7;
    while left > 0
        invariant
            left <= 7,
            slide_mask(reached, front, occupied, direction, left as nat) == ray_attacks_mask(
                from,
                occupied,
                direction,
            ),
        decreases left,
    {
        let first = step(front, direction);
        reached = reached | first;
        front = first & !occupied;
        left = left - 1;
    }
    proof {
        lemma_ray_attacks(from, occupied, direction);
    }
    reached
}

/// The squares that the given rooks attack over the `occupied` squares.
pub fn rook_attacks(rooks: BitBoard, occupied: BitBoard) -> (attacks: BitBoard)
    ensures
        attacks == rook_attacks_mask(rooks, occupied),
        attacks.squares() == rook_attack_targets(rooks.squares(), occupied.squares()),
{
    let north = ray_attacks(rooks, occupied, Direction::North);
    let east = ray_attacks(rooks, occupied, Direction::East);
    let south = ray_attacks(rooks, occupied, Direction::South);
    let west = ray_attacks(rooks, occupied, Direction::West);
    proof {
        lemma_connective_squares(north, east);
        lemma_connective_squares(north | east, south);
        lemma_connective_squares(north | east | south, west);
    }
    north | east | south | west
}

/// The squares that the given bishops attack over the `occupied` squares.
pub fn bishop_attacks(bishops: BitBoard, occupied: BitBoard) -> (attacks: BitBoard)
    ensures
        attacks == bishop_attacks_mask(bishops, occupied),
        attacks.squares() == bishop_attack_targets(bishops.squares(), occupied.squares()),
{
    let north_east = ray_attacks(bishops, occupied, Direction::NorthEast);
    let south_east = ray_attacks(bishops, occupied, Direction::SouthEast);
    let south_west = ray_attacks(bishops, occupied, Direction::SouthWest);
    let north_west = ray_attacks(bishops, occupied, Direction::NorthWest);
    proof {
        lemma_connective_squares(north_east, south_east);
        lemma_connective_squares(north_east | south_east, south_west);
        lemma_connective_squares(north_east | south_east | south_west, north_west);
    }
    north_east | south_east | south_west | north_west
}

/// The squares that the given queens attack over the `occupied` squares.
pub fn queen_attacks(queens: BitBoard, occupied: BitBoard) -> (attacks: BitBoard)
    ensures
        attacks == queen_attacks_mask(queens, occupied),
        attacks.squares() == queen_attack_targets(queens.squares(), occupied.squares()),
{
    let straight = rook_attacks(queens, occupied);
    let diagonal = bishop_attacks(queens, occupied);
    proof {
        lemma_connective_squares(straight, diagonal);
    }
    straight | diagonal
}

/// Every destination of the given rooks: the squares they attack over all
/// the pieces of both sides that do not hold a piece of their own side.
/// The moves are pseudo-legal.
pub fn rook_moves(
    rooks: BitBoard,
    own_pieces: BitBoard,
    enemy_pieces: BitBoard,
) -> (moves: BitBoard)
    ensures
        moves == rook_attacks_mask(rooks, own_pieces | enemy_pieces) & !own_pieces,
        moves.squares() == rook_move_targets(
            rooks.squares(),
            own_pieces.squares(),
            enemy_pieces.squares(),
        ),
{
    let attacks = rook_attacks(rooks, own_pieces | enemy_pieces);
    proof {
        lemma_connective_squares(own_pieces, own_pieces);
    }
    proof {
        lemma_connective_squares(own_pieces, enemy_pieces);
        lemma_connective_squares(attacks, !own_pieces);
        assert((attacks & !own_pieces).squares() =~= attacks.squares().difference(
            own_pieces.squares(),
        ));
    }
    attacks & !own_pieces
}

/// Every destination of the given bishops: the squares they attack over
/// all the pieces of both sides that do not hold a piece of their own
/// side. The moves are pseudo-legal.
pub fn bishop_moves(
    bishops: BitBoard,
    own_pieces: BitBoard,
    enemy_pieces: BitBoard,
) -> (moves: BitBoard)
    ensures
        moves == bishop_attacks_mask(bishops, own_pieces | enemy_pieces) & !own_pieces,
        moves.squares() == bishop_move_targets(
            bishops.squares(),
            own_pieces.squares(),
            enemy_pieces.squares(),
        ),
{
    let attacks = bishop_attacks(bishops, own_pieces | enemy_pieces);
    proof {
        lemma_connective_squares(own_pieces, own_pieces);
    }
    proof {
        lemma_connective_squares(own_pieces, enemy_pieces);
        lemma_connective_squares(attacks, !own_pieces);
        assert((attacks & !own_pieces).squares() =~= attacks.squares().difference(
            own_pieces.squares(),
        ));
    }
    attacks & !own_pieces
}

/// Every destination of the given queens: the squares they attack over all
/// the pieces of both sides that do not hold a piece of their own side.
/// The moves are pseudo-legal.
pub fn queen_moves(
    queens: BitBoard,
    own_pieces: BitBoard,
    enemy_pieces: BitBoard,
) -> (moves: BitBoard)
    ensures
        moves == queen_attacks_mask(queens, own_pieces | enemy_pieces) & !own_pieces,
        moves.squares() == queen_move_targets(
            queens.squares(),
            own_pieces.squares(),
            enemy_pieces.squares(),
        ),
{
    let attacks = queen_attacks(queens, own_pieces | enemy_pieces);
    proof {
        lemma_connective_squares(own_pieces, own_pieces);
    }
    proof {
        lemma_connective_squares(own_pieces, enemy_pieces);
        lemma_connective_squares(attacks, !own_pieces);
        assert((attacks & !own_pieces).squares() =~= attacks.squares().difference(
            own_pieces.squares(),
        ));
    }
    attacks & !own_pieces
}

/// The square that lies `count` steps of `files` files and `ranks` ranks
/// before `to`.
pub open spec fn steps_back(to: int, files: int, ranks: int, count: int) -> int {
    to - count * (files + 8 * ranks)
}

/// Whether `to` is reached in exactly `count` steps of `files` files and
/// `ranks` ranks from a square of `from`: the steps stay on the board, and
/// none of the squares passed on the way, between the start and `to`, is
/// among the `blockers`.
pub open spec fn reaches(
    from: Set<int>,
    blockers: Set<int>,
    files: int,
    ranks: int,
    count: int,
    to: int,
) -> bool {
    &&& 1 <= count
    &&& on_board(to)
    &&& 0 <= file_of(to) - count * files < 8
    &&& 0 <= rank_of(to) - count * ranks < 8
    &&& from.contains(steps_back(to, files, ranks, count))
    &&& forall|passed: int|
        1 <= passed < count ==> !blockers.contains(#[trigger] steps_back(to, files, ranks, passed))
}

proof fn lemma_steps_back(to: int, files: int, ranks: int, count: int)
    requires
        on_board(to),
        0 <= file_of(to) - count * files < 8,
        0 <= rank_of(to) - count * ranks < 8,
    ensures
        on_board(steps_back(to, files, ranks, count)),
        file_of(steps_back(to, files, ranks, count)) == file_of(to) - count * files,
        rank_of(steps_back(to, files, ranks, count)) == rank_of(to) - count * ranks,
        steps_back(to, files, ranks, count + 1) == steps_back(to, files, ranks, count) - files - 8
            * ranks,
        steps_back(to, files, ranks, 1) == to - files - 8 * ranks,
{
    let by_files = count * files;
    let by_ranks = count * ranks;
    assert(count * (files + 8 * ranks) == by_files + 8 * by_ranks) by (nonlinear_arith)
        requires
            by_files == count * files,
            by_ranks == count * ranks,
    ;
    assert((count + 1) * (files + 8 * ranks) == count * (files + 8 * ranks) + (files + 8 * ranks))
        by (nonlinear_arith);
    assert(1 * (files + 8 * ranks) == files + 8 * ranks) by (nonlinear_arith);
    let back = steps_back(to, files, ranks, count);
    assert(back == (file_of(to) - by_files) + 8 * (rank_of(to) - by_ranks));
}

proof fn lemma_steps_between(to: int, files: int, ranks: int, count: int, fewer: int)
    requires
        -1 <= files <= 1,
        -1 <= ranks <= 1,
        on_board(to),
        0 <= fewer <= count,
        0 <= file_of(to) - count * files < 8,
        0 <= rank_of(to) - count * ranks < 8,
    ensures
        0 <= file_of(to) - fewer * files < 8,
        0 <= rank_of(to) - fewer * ranks < 8,
        fewer + 1 == count ==> fewer * files == count * files - files && fewer * ranks == count
            * ranks - ranks,
        (files != 0 || ranks != 0) ==> count <= 7,
{
    assert(count * files == if files == 1 {
        count
    } else if files == 0 {
        0
    } else {
        -count
    }) by (nonlinear_arith)
        requires
            -1 <= files <= 1,
    ;
    assert(fewer * files == if files == 1 {
        fewer
    } else if files == 0 {
        0
    } else {
        -fewer
    }) by (nonlinear_arith)
        requires
            -1 <= files <= 1,
    ;
    assert(count * ranks == if ranks == 1 {
        count
    } else if ranks == 0 {
        0
    } else {
        -count
    }) by (nonlinear_arith)
        requires
            -1 <= ranks <= 1,
    ;
    assert(fewer * ranks == if ranks == 1 {
        fewer
    } else if ranks == 0 {
        0
    } else {
        -fewer
    }) by (nonlinear_arith)
        requires
            -1 <= ranks <= 1,
    ;
}

/// What a slide reaches, said without the recursion: a square is reached in
/// at most `steps` steps exactly when it lies some number of steps, one to
/// `steps`, from a starting square, with no blocker passed on the way.
pub proof fn lemma_slide_reaches(
    from: Set<int>,
    blockers: Set<int>,
    files: int,
    ranks: int,
    steps: nat,
    to: int,
)
    requires
        -1 <= files <= 1,
        -1 <= ranks <= 1,
    ensures
        slide(from, blockers, files, ranks, steps).contains(to) <==> exists|count: int|
            1 <= count <= steps && #[trigger] reaches(from, blockers, files, ranks, count, to),
    decreases steps,
{
    if steps > 0 {
        let first = shifted(from, files, ranks);
        let onward = first.difference(blockers);
        let rest = (steps - 1) as nat;
        lemma_slide_reaches(onward, blockers, files, ranks, rest, to);
        if slide(from, blockers, files, ranks, steps).contains(to) {
            if first.contains(to) {
                assert(1 * files == files && 1 * ranks == ranks) by (nonlinear_arith);
                lemma_steps_back(to, files, ranks, 0);
                assert(reaches(from, blockers, files, ranks, 1, to));
            } else {
                let fewer = choose|count: int|
                    1 <= count <= rest && #[trigger] reaches(
                        onward,
                        blockers,
                        files,
                        ranks,
                        count,
                        to,
                    );
                let middle = steps_back(to, files, ranks, fewer);
                lemma_steps_back(to, files, ranks, fewer);
                assert((fewer + 1) * files == fewer * files + files) by (nonlinear_arith);
                assert((fewer + 1) * ranks == fewer * ranks + ranks) by (nonlinear_arith);
                assert(first.contains(middle));
                assert forall|passed: int| 1 <= passed < fewer + 1 implies !blockers.contains(
                    #[trigger] steps_back(to, files, ranks, passed),
                ) by {
                    if passed == fewer {
                        assert(!blockers.contains(middle));
                    }
                }
                assert(reaches(from, blockers, files, ranks, fewer + 1, to));
            }
        }
        if exists|count: int|
            1 <= count <= steps && #[trigger] reaches(from, blockers, files, ranks, count, to) {
            let count = choose|count: int|
                1 <= count <= steps && #[trigger] reaches(from, blockers, files, ranks, count, to);
            if count == 1 {
                assert(1 * files == files && 1 * ranks == ranks) by (nonlinear_arith);
                lemma_steps_back(to, files, ranks, 0);
                assert(first.contains(to));
            } else {
                let fewer = count - 1;
                let middle = steps_back(to, files, ranks, fewer);
                lemma_steps_between(to, files, ranks, count, fewer);
                lemma_steps_back(to, files, ranks, fewer);
                assert(first.contains(middle));
                assert(!blockers.contains(middle));
                assert(reaches(onward, blockers, files, ranks, fewer, to));
            }
        }
    }
}

/// A ray on the board is never longer than seven steps: a slide in one of
/// the eight directions reaches nothing more with more steps.
pub proof fn lemma_seven_steps_are_enough(
    from: Set<int>,
    blockers: Set<int>,
    direction: Direction,
    steps: nat,
)
    requires
        steps >= 7,
    ensures
        slide(from, blockers, direction.files(), direction.ranks(), steps) == ray_targets(
            from,
            blockers,
            direction,
        ),
{
    let files = direction.files();
    let ranks = direction.ranks();
    assert forall|to: int|
        slide(from, blockers, files, ranks, steps).contains(to) == ray_targets(
            from,
            blockers,
            direction,
        ).contains(to) by {
        lemma_slide_reaches(from, blockers, files, ranks, steps, to);
        lemma_slide_reaches(from, blockers, files, ranks, 7, to);
        if slide(from, blockers, files, ranks, steps).contains(to) {
            let count = choose|count: int|
                1 <= count <= steps && #[trigger] reaches(from, blockers, files, ranks, count, to);
            lemma_steps_between(to, files, ranks, count, 0);
            assert(reaches(from, blockers, files, ranks, count, to));
        }
    }
    assert(slide(from, blockers, files, ranks, steps) =~= ray_targets(from, blockers, direction));
}

/// The squares attacked along a ray, said square by square: a square is
/// attacked exactly when it lies some number of steps in the direction from
/// a slider, every square passed on the way being empty.
pub proof fn lemma_ray_reaches(from: Set<int>, occupied: Set<int>, direction: Direction, to: int)
    ensures
        ray_targets(from, occupied, direction).contains(to) <==> exists|count: int| #[trigger]
            reaches(from, occupied, direction.files(), direction.ranks(), count, to),
{
    let files = direction.files();
    let ranks = direction.ranks();
    lemma_slide_reaches(from, occupied, files, ranks, 7, to);
    if exists|count: int| #[trigger] reaches(from, occupied, files, ranks, count, to) {
        let count = choose|count: int| #[trigger] reaches(from, occupied, files, ranks, count, to);
        lemma_steps_between(to, files, ranks, count, 0);
        assert(reaches(from, occupied, files, ranks, count, to));
    }
}

} // verus!
