use vstd::prelude::*;

use crate::board::square::UncheckedSquare;
use crate::board::Offset;

verus! {

/// Says whether an error is about a row, a column, or both.
#[derive(Copy, Clone, Debug, PartialEq, Eq, Structural)]
pub enum Orientation {
    Rank,
    File,
    Both,
}

/// The error of an offset application whose result is not representable.
#[derive(Copy, Clone, Debug, PartialEq, Eq, Structural)]
pub enum InvalidOffsetError {
    /// The resulting coordinate would lie off the left or bottom side of the board.
    LessThanZero(Orientation, Offset),
    /// The resulting square would lie off the top or right side of the board.
    InvalidSquare(InvalidSquareError),
}

/// The error of a coordinate that lies outside its board.
#[derive(Copy, Clone, Debug, PartialEq, Eq, Structural)]
pub enum InvalidSquareError {
    /// The square lies off the top or right side of the board.
    OutOfBounds(Orientation, UncheckedSquare),
}

impl InvalidSquareError {
    /// A fixed description of the error.
    pub fn message(&self) -> (r: &'static str)
        ensures
            r@ == "Square is out of bounds"@,
    {
        "Square is out of bounds"
    }
}

impl InvalidOffsetError {
    /// A fixed description of the error.
    pub fn message(&self) -> (r: &'static str)
        ensures
            self matches InvalidOffsetError::LessThanZero(Orientation::File, _) ==> r@
                == "Invalid offset, resulting file is less than zero"@,
            (self matches InvalidOffsetError::LessThanZero(o, _) && o != Orientation::File) ==> r@
                == "Invalid offset, resulting rank is less than zero"@,
            self matches InvalidOffsetError::InvalidSquare(_) ==> r@
                == "Square is out of bounds"@,
    {
        match self {
            InvalidOffsetError::LessThanZero(Orientation::File, _) => {
                "Invalid offset, resulting file is less than zero"
            },
            InvalidOffsetError::LessThanZero(_, _) => {
                "Invalid offset, resulting rank is less than zero"
            },
            InvalidOffsetError::InvalidSquare(error) => error.message(),
        }
    }
}

} // verus!
