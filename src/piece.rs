use vstd::prelude::*;

verus! {

/// The eight kinds of shogi piece.
#[derive(Debug, Clone, Copy, PartialEq, Eq, Structural)]
pub enum PieceType {
    /// 香車
    Lance,
    /// 桂馬
    Knight,
    /// 銀將
    Silver,
    /// 金將
    Gold,
    /// 王將
    King,
    /// 飛車
    Rook,
    /// 角行
    Bishop,
    /// 步兵
    Pawn,
}

/// The two-character kanji name of a piece kind.
pub open spec fn name_of(kind: PieceType) -> Seq<char> {
    match kind {
        PieceType::Lance => seq!['香', '車'],
        PieceType::Knight => seq!['桂', '馬'],
        PieceType::Silver => seq!['銀', '將'],
        PieceType::Gold => seq!['金', '將'],
        PieceType::King => seq!['王', '將'],
        PieceType::Rook => seq!['飛', '車'],
        PieceType::Bishop => seq!['角', '行'],
        PieceType::Pawn => seq!['步', '兵'],
    }
}

impl PieceType {
    /// Returns the kanji name of the piece.
    pub fn to_string(&self) -> (r: String)
        ensures
            r@ == name_of(*self),
    {
        match self {
            PieceType::Lance => {
                proof { reveal_strlit("香車"); }
                "香車".to_string()
            },
            PieceType::Knight => {
                proof { reveal_strlit("桂馬"); }
                "桂馬".to_string()
            },
            PieceType::Silver => {
                proof { reveal_strlit("銀將"); }
                "銀將".to_string()
            },
            PieceType::Gold => {
                proof { reveal_strlit("金將"); }
                "金將".to_string()
            },
            PieceType::King => {
                proof { reveal_strlit("王將"); }
                "王將".to_string()
            },
            PieceType::Rook => {
                proof { reveal_strlit("飛車"); }
                "飛車".to_string()
            },
            PieceType::Bishop => {
                proof { reveal_strlit("角行"); }
                "角行".to_string()
            },
            PieceType::Pawn => {
                proof { reveal_strlit("步兵"); }
                "步兵".to_string()
            },
        }
    }

    /// Whether the piece slides any number of squares along its directions
    /// (Lance, Rook, Bishop) rather than moving a single step or jump.
    pub open spec fn spec_is_sliding(&self) -> bool {
        self is Lance || self is Rook || self is Bishop
    }

    /// Whether the piece slides any number of squares along its directions.
    #[verifier::when_used_as_spec(spec_is_sliding)]
    pub fn is_sliding(&self) -> (r: bool)
        ensures
            r == self.spec_is_sliding(),
    {
        match self {
            PieceType::Lance | PieceType::Rook | PieceType::Bishop => true,
            _ => false,
        }
    }
}

/// A piece on the board: its kind and its side. `side == true` is the side
/// whose forward direction is towards rank 0; `false` moves towards rank 8.
#[derive(Debug, Clone, Copy, PartialEq, Eq, Structural)]
pub struct Piece {
    /// Piece type.
    pub kind: PieceType,
    /// Piece side.
    pub side: bool,
}

} // verus!
