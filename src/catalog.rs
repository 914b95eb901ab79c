use vstd::prelude::*;

use crate::piece::PieceType;

verus! {

/// The rank step of "forward" for a side: side `true` advances towards
/// rank 0, side `false` towards rank 8.
pub open spec fn forward(side: bool) -> int {
    if side {
        -1
    } else {
        1
    }
}

/// The step directions `(file step, rank step)` of a piece kind for a side,
/// in the order in which moves are generated.
pub open spec fn pattern(kind: PieceType, side: bool) -> Seq<(int, int)> {
    let f = forward(side);
    match kind {
        PieceType::Pawn => seq![(0, f)],
        PieceType::Lance => seq![(0, f)],
        PieceType::Knight => seq![(-1, 2 * f), (1, 2 * f)],
        PieceType::Silver => seq![(-1, f), (0, f), (1, f), (-1, -f), (1, -f)],
        PieceType::Gold => seq![(-1, f), (0, f), (1, f), (-1, 0), (1, 0), (0, -f)],
        PieceType::King => seq![
            (-1, f), (0, f), (1, f), (-1, 0), (1, 0), (0, -f), (-1, -f), (1, -f),
        ],
        PieceType::Rook => seq![(-1, 0), (1, 0), (0, -1), (0, 1)],
        PieceType::Bishop => seq![(1, 1), (1, -1), (-1, 1), (-1, -1)],
    }
}

/// How many squares a piece may travel along one direction: one for a
/// step or jump, eight (the whole board) for a sliding piece.
pub open spec fn range_of(kind: PieceType) -> nat {
    if kind.is_sliding() {
        8
    } else {
        1
    }
}

/// The step directions of `kind` for `side`, as in `pattern`.
pub fn directions(kind: PieceType, side: bool) -> (r: Vec<(i8, i8)>)
    ensures
        r@.len() == pattern(kind, side).len(),
        forall|i: int|
            0 <= i < r@.len() ==> (#[trigger] r@[i].0 as int, r@[i].1 as int) == pattern(kind, side)[i],
{
    let f: i8 = if side { -1 } else { 1 };
    let b: i8 = -f;
    let r: Vec<(i8, i8)> = match kind {
        PieceType::Pawn => vec![(0, f)],
        PieceType::Lance => vec![(0, f)],
        PieceType::Knight => vec![(-1, 2 * f), (1, 2 * f)],
        PieceType::Silver => vec![(-1, f), (0, f), (1, f), (-1, b), (1, b)],
        PieceType::Gold => vec![(-1, f), (0, f), (1, f), (-1, 0), (1, 0), (0, b)],
        PieceType::King => vec![(-1, f), (0, f), (1, f), (-1, 0), (1, 0), (0, b), (-1, b), (1, b)],
        PieceType::Rook => vec![(-1, 0), (1, 0), (0, -1), (0, 1)],
        PieceType::Bishop => vec![(1, 1), (1, -1), (-1, 1), (-1, -1)],
    };
    r
}

/// How many squares `kind` may travel along one direction, as in `range_of`.
pub fn range(kind: PieceType) -> (r: usize)
    ensures
        r == range_of(kind),
{
    if kind.is_sliding() {
        8
    } else {
        1
    }
}

/// Every direction of a sliding piece is a unit step along a rank, a file
/// or a diagonal.
pub proof fn sliding_directions_are_unit(kind: PieceType, side: bool, i: int)
    requires
        kind.is_sliding(),
        0 <= i < pattern(kind, side).len(),
    ensures
        -1 <= pattern(kind, side)[i].0 <= 1,
        -1 <= pattern(kind, side)[i].1 <= 1,
        pattern(kind, side)[i] != (0int, 0int),
{
}

} // verus!
