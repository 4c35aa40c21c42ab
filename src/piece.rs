use vstd::prelude::*;

verus! {

/// The kind of a chess piece; it selects the attack pattern.
#[derive(Clone, Copy, Debug, PartialEq, Eq, Structural)]
pub enum PieceType {
    Pawn,
    Knight,
    Bishop,
    Rook,
    Queen,
    King,
}

/// The side a piece belongs to; it sets the direction in which pawns attack.
#[derive(Clone, Copy, Debug, PartialEq, Eq, Structural)]
pub enum Color {
    White,
    Black,
}

/// The number of piece types.
pub const PIECE_TYPE_COUNT: usize = 6;

/// The number of colors.
pub const COLOR_COUNT: usize = 2;

impl PieceType {
    /// The position of the piece type in declaration order.
    pub open spec fn spec_ordinal(self) -> nat {
        match self {
            PieceType::Pawn => 0,
            PieceType::Knight => 1,
            PieceType::Bishop => 2,
            PieceType::Rook => 3,
            PieceType::Queen => 4,
            PieceType::King => 5,
        }
    }

    /// The position of the piece type in declaration order.
    pub fn ordinal(self) -> (r: usize)
        ensures
            r == self.spec_ordinal(),
    {
        match self {
            PieceType::Pawn => 0,
            PieceType::Knight => 1,
            PieceType::Bishop => 2,
            PieceType::Rook => 3,
            PieceType::Queen => 4,
            PieceType::King => 5,
        }
    }
}

impl PieceType {
    /// The letter that stands for the piece type on a board diagram.
    pub open spec fn spec_letter(self) -> char {
        match self {
            PieceType::Pawn => 'P',
            PieceType::Knight => 'N',
            PieceType::Bishop => 'B',
            PieceType::Rook => 'R',
            PieceType::Queen => 'Q',
            PieceType::King => 'K',
        }
    }

    /// The letter that stands for the piece type on a board diagram.
    pub fn letter(self) -> (r: char)
        ensures
            r == self.spec_letter(),
    {
        match self {
            PieceType::Pawn => 'P',
            PieceType::Knight => 'N',
            PieceType::Bishop => 'B',
            PieceType::Rook => 'R',
            PieceType::Queen => 'Q',
            PieceType::King => 'K',
        }
    }
}

impl Color {
    /// The position of the color in declaration order.
    pub open spec fn spec_ordinal(self) -> nat {
        match self {
            Color::White => 0,
            Color::Black => 1,
        }
    }

    /// The position of the color in declaration order.
    pub fn ordinal(self) -> (r: usize)
        ensures
            r == self.spec_ordinal(),
    {
        match self {
            Color::White => 0,
            Color::Black => 1,
        }
    }
}

} // verus!
