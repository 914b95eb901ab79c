use vstd::prelude::*;

use crate::piece::{Piece, PieceType};

verus! {

broadcast use vstd::array::group_array_axioms;

/// Whether `(file, rank)` names a square of the 9×9 board.
pub open spec fn in_bounds(file: int, rank: int) -> bool {
    0 <= file <= 8 && 0 <= rank <= 8
}

/// The kind standing on `file` of a back rank in the starting position.
pub open spec fn back_rank_kind(file: int) -> PieceType {
    if file == 0 || file == 8 {
        PieceType::Lance
    } else if file == 1 || file == 7 {
        PieceType::Knight
    } else if file == 2 || file == 6 {
        PieceType::Silver
    } else if file == 3 || file == 5 {
        PieceType::Gold
    } else {
        PieceType::King
    }
}

/// The content of `(file, rank)` in the starting position. Side `false`
/// sets up on ranks 0 to 2, side `true` on ranks 6 to 8; each half is the
/// other turned half a turn about the board's centre.
pub open spec fn start_cell(file: int, rank: int) -> Option<Piece> {
    if rank == 0 {
        Some(Piece { kind: back_rank_kind(file), side: false })
    } else if rank == 8 {
        Some(Piece { kind: back_rank_kind(file), side: true })
    } else if rank == 1 && file == 1 {
        Some(Piece { kind: PieceType::Rook, side: false })
    } else if rank == 1 && file == 7 {
        Some(Piece { kind: PieceType::Bishop, side: false })
    } else if rank == 7 && file == 1 {
        Some(Piece { kind: PieceType::Bishop, side: true })
    } else if rank == 7 && file == 7 {
        Some(Piece { kind: PieceType::Rook, side: true })
    } else if rank == 2 {
        Some(Piece { kind: PieceType::Pawn, side: false })
    } else if rank == 6 {
        Some(Piece { kind: PieceType::Pawn, side: true })
    } else {
        None
    }
}

/// A 9×9 grid of optional pieces, stored rank by rank.
#[derive(Debug, Clone, Copy)]
pub struct Board {
    cells: [[Option<Piece>; 9]; 9],
}

impl Board {
    /// The content of the square `(file, rank)`; meaningful on the board only.
    pub closed spec fn cell(self, file: int, rank: int) -> Option<Piece> {
        self.cells@[rank]@[file]
    }

    /// A board with no piece on it.
    pub fn empty() -> (b: Board)
        ensures
            forall|f: int, r: int| #[trigger] in_bounds(f, r) ==> b.cell(f, r).is_none(),
    {
        let row: [Option<Piece>; 9] = [None; 9];
        Board { cells: [row; 9] }
    }

    /// The board in the fixed shogi starting position.
    pub fn starting() -> (b: Board)
        ensures
            forall|f: int, r: int| #[trigger] in_bounds(f, r) ==> b.cell(f, r) == start_cell(f, r),
    {
        let mut b = Board::empty();
        for rank in 0..9usize
            invariant
                forall|f: int, r: int|
                    #[trigger] in_bounds(f, r) && r < rank ==> b.cell(f, r) == start_cell(f, r),
        {
            let mut row: [Option<Piece>; 9] = [None; 9];
            for file in 0..9usize
                invariant
                    rank < 9,
                    forall|f: int| 0 <= f < file ==> #[trigger] row@[f] == start_cell(f, rank as int),
            {
                row[file] = start_piece(file, rank);
            }
            b.cells[rank] = row;
        }
        b
    }

    /// The piece on `square = (file, rank)`, if any.
    pub fn at(&self, square: (usize, usize)) -> (r: Option<Piece>)
        requires
            in_bounds(square.0 as int, square.1 as int),
        ensures
            r == self.cell(square.0 as int, square.1 as int),
    {
        self.cells[square.1][square.0]
    }

    /// Puts `piece` (or nothing) on `square = (file, rank)`; every other
    /// square keeps its content.
    pub fn set(&mut self, square: (usize, usize), piece: Option<Piece>)
        requires
            in_bounds(square.0 as int, square.1 as int),
        ensures
            final(self).cell(square.0 as int, square.1 as int) == piece,
            forall|f: int, r: int|
                #[trigger] in_bounds(f, r) && (f, r) != (square.0 as int, square.1 as int)
                    ==> final(self).cell(f, r) == old(self).cell(f, r),
    {
        let mut row = self.cells[square.1];
        row[square.0] = piece;
        self.cells[square.1] = row;
    }
}

/// The content of a square in the starting position.
fn start_piece(file: usize, rank: usize) -> (r: Option<Piece>)
    requires
        in_bounds(file as int, rank as int),
    ensures
        r == start_cell(file as int, rank as int),
{
    let kind = if file == 0 || file == 8 {
        PieceType::Lance
    } else if file == 1 || file == 7 {
        PieceType::Knight
    } else if file == 2 || file == 6 {
        PieceType::Silver
    } else if file == 3 || file == 5 {
        PieceType::Gold
    } else {
        PieceType::King
    };
    if rank == 0 || rank == 8 {
        Some(Piece { kind, side: rank == 8 })
    } else if (rank == 1 || rank == 7) && (file == 1 || file == 7) {
        let rook = (rank == 1) == (file == 1);
        Some(Piece { kind: if rook { PieceType::Rook } else { PieceType::Bishop }, side: rank == 7 })
    } else if rank == 2 || rank == 6 {
        Some(Piece { kind: PieceType::Pawn, side: rank == 6 })
    } else {
        None
    }
}

/// The starting position is symmetric under a half turn about the centre:
/// the square opposite an occupied one holds the same kind for the other side.
pub proof fn start_is_point_symmetric(file: int, rank: int)
    requires
        in_bounds(file, rank),
    ensures
        start_cell(file, rank).is_some() <==> start_cell(8 - file, 8 - rank).is_some(),
        start_cell(file, rank).is_some() ==> {
            &&& start_cell(file, rank).unwrap().kind == start_cell(8 - file, 8 - rank).unwrap().kind
            &&& start_cell(file, rank).unwrap().side != start_cell(8 - file, 8 - rank).unwrap().side
        },
{
}

} // verus!
