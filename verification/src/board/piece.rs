use vstd::prelude::*;

verus! {

/// Represents a type of chess piece.
#[derive(Copy, Clone, Debug, PartialEq, Eq, Structural)]
pub enum PieceType {
    Pawn,
    Knight,
    Bishop,
    Rook,
    Queen,
    King,
}

/// Represents the color of a chess piece.
#[derive(Copy, Clone, Debug, PartialEq, Eq, Structural)]
pub enum Side {
    White,
    Black,
}

impl Side {
    /// The opposing side, as a specification value.
    pub open spec fn opposite(self) -> Side {
        match self {
            Side::White => Side::Black,
            Side::Black => Side::White,
        }
    }

    /// Returns the opposing side.
    pub fn flip(self) -> (r: Self)
        ensures
            r == self.opposite(),
    {
        match self {
            Side::White => Side::Black,
            Side::Black => Side::White,
        }
    }
}

/// Represents a piece on the chessboard: a side together with a piece type.
#[derive(Copy, Clone, Debug, PartialEq, Eq, Structural)]
pub struct Piece {
    pub side: Side,
    pub piece_type: PieceType,
}

impl Piece {
    pub fn new(side: Side, piece_type: PieceType) -> (r: Self)
        ensures
            r == (Piece { side, piece_type }),
    {
        Self { side, piece_type }
    }

    /// The character that stands for this piece in board diagrams:
    /// chess letters, upper case for White and lower case for Black.
    pub open spec fn spec_char(self) -> char {
        match self.side {
            Side::White => match self.piece_type {
                PieceType::Pawn => 'P',
                PieceType::Knight => 'N',
                PieceType::Bishop => 'B',
                PieceType::Rook => 'R',
                PieceType::Queen => 'Q',
                PieceType::King => 'K',
            },
            Side::Black => match self.piece_type {
                PieceType::Pawn => 'p',
                PieceType::Knight => 'n',
                PieceType::Bishop => 'b',
                PieceType::Rook => 'r',
                PieceType::Queen => 'q',
                PieceType::King => 'k',
            },
        }
    }

    /// The piece a diagram character stands for, if any.
    pub open spec fn spec_of_char(c: char) -> Option<Piece> {
        if c == 'P' {
            Some(Piece { side: Side::White, piece_type: PieceType::Pawn })
        } else if c == 'N' {
            Some(Piece { side: Side::White, piece_type: PieceType::Knight })
        } else if c == 'B' {
            Some(Piece { side: Side::White, piece_type: PieceType::Bishop })
        } else if c == 'R' {
            Some(Piece { side: Side::White, piece_type: PieceType::Rook })
        } else if c == 'Q' {
            Some(Piece { side: Side::White, piece_type: PieceType::Queen })
        } else if c == 'K' {
            Some(Piece { side: Side::White, piece_type: PieceType::King })
        } else if c == 'p' {
            Some(Piece { side: Side::Black, piece_type: PieceType::Pawn })
        } else if c == 'n' {
            Some(Piece { side: Side::Black, piece_type: PieceType::Knight })
        } else if c == 'b' {
            Some(Piece { side: Side::Black, piece_type: PieceType::Bishop })
        } else if c == 'r' {
            Some(Piece { side: Side::Black, piece_type: PieceType::Rook })
        } else if c == 'q' {
            Some(Piece { side: Side::Black, piece_type: PieceType::Queen })
        } else if c == 'k' {
            Some(Piece { side: Side::Black, piece_type: PieceType::King })
        } else {
            None
        }
    }

    /// Encodes this piece as its diagram character.
    pub fn to_char(&self) -> (c: char)
        ensures
            c == self.spec_char(),
            Piece::spec_of_char(c) == Some(*self),
    {
        match self.side {
            Side::White => match self.piece_type {
                PieceType::Pawn => 'P',
                PieceType::Knight => 'N',
                PieceType::Bishop => 'B',
                PieceType::Rook => 'R',
                PieceType::Queen => 'Q',
                PieceType::King => 'K',
            },
            Side::Black => match self.piece_type {
                PieceType::Pawn => 'p',
                PieceType::Knight => 'n',
                PieceType::Bishop => 'b',
                PieceType::Rook => 'r',
                PieceType::Queen => 'q',
                PieceType::King => 'k',
            },
        }
    }

    /// Decodes a diagram character into a piece; any character that is not
    /// a piece letter yields `None`.
    pub fn from_char(c: char) -> (r: Option<Piece>)
        ensures
            r == Piece::spec_of_char(c),
    {
        if c == 'P' {
            Some(Piece { side: Side::White, piece_type: PieceType::Pawn })
        } else if c == 'N' {
            Some(Piece { side: Side::White, piece_type: PieceType::Knight })
        } else if c == 'B' {
            Some(Piece { side: Side::White, piece_type: PieceType::Bishop })
        } else if c == 'R' {
            Some(Piece { side: Side::White, piece_type: PieceType::Rook })
        } else if c == 'Q' {
            Some(Piece { side: Side::White, piece_type: PieceType::Queen })
        } else if c == 'K' {
            Some(Piece { side: Side::White, piece_type: PieceType::King })
        } else if c == 'p' {
            Some(Piece { side: Side::Black, piece_type: PieceType::Pawn })
        } else if c == 'n' {
            Some(Piece { side: Side::Black, piece_type: PieceType::Knight })
        } else if c == 'b' {
            Some(Piece { side: Side::Black, piece_type: PieceType::Bishop })
        } else if c == 'r' {
            Some(Piece { side: Side::Black, piece_type: PieceType::Rook })
        } else if c == 'q' {
            Some(Piece { side: Side::Black, piece_type: PieceType::Queen })
        } else if c == 'k' {
            Some(Piece { side: Side::Black, piece_type: PieceType::King })
        } else {
            None
        }
    }
}

} // verus!
