use vstd::prelude::*;

verus! {

/// The side a piece belongs to.
#[derive(PartialEq, Eq, Structural, Clone, Copy, Debug)]
pub enum PieceColor {
    White,
    Black,
}

/// The kind of a chess piece.
#[derive(PartialEq, Eq, Structural, Clone, Copy, Debug)]
pub enum PieceType {
    Pawn,
    Rook,
    Knight,
    Bishop,
    Queen,
    King,
}

/// How a game stands for the side to move.
#[derive(PartialEq, Eq, Structural, Clone, Copy, Debug)]
pub enum EndType {
    /// The side to move has a legal move.
    NoEnd,
    /// Stalemate: no legal move, king not attacked.
    Tie,
    /// The named side is checkmated.
    Checkmate(PieceColor),
}

/// The error conditions of the engine.
#[derive(PartialEq, Eq, Structural, Clone, Copy, Debug)]
pub enum ChessError {
    InvalidMove,
    NoMovesFound,
    NoKing,
    OutsideBounds,
    InvalidMoveString,
    EndWithNoEnd,
}

pub open spec fn opposite(c: PieceColor) -> PieceColor {
    match c {
        PieceColor::White => PieceColor::Black,
        PieceColor::Black => PieceColor::White,
    }
}

impl PieceColor {
    pub fn opposite_color(&self) -> (r: PieceColor)
        ensures
            r == opposite(*self),
    {
        match self {
            PieceColor::White => PieceColor::Black,
            PieceColor::Black => PieceColor::White,
        }
    }

    /// The color's name, capitalised.
    pub fn get_string(&self) -> (r: String)
        ensures
            r@ == (match *self {
                PieceColor::White => "White"@,
                PieceColor::Black => "Black"@,
            }),
    {
        match self {
            PieceColor::White => String::from_str("White"),
            PieceColor::Black => String::from_str("Black"),
        }
    }

    /// +1 for White, -1 for Black: the direction a pawn of this color advances.
    pub fn side_const(&self) -> (r: i32)
        ensures
            r == (if *self == PieceColor::White { 1int } else { -1int }),
    {
        match self {
            PieceColor::White => 1,
            PieceColor::Black => -1,
        }
    }
}

} // verus!
