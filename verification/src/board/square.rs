use vstd::prelude::*;

use crate::board::errors::{InvalidSquareError, Orientation};
use crate::board::Board;

verus! {

/// Represents a square that is known to lie on its board.
///
/// File counts from the left, starting at 0.
/// Rank counts from the bottom, starting at 0.
#[derive(Copy, Clone, Debug, PartialEq, Eq, Structural)]
pub struct Square {
    pub file: u8,
    pub rank: u8,
}

/// Represents a square that may or may not be on the board: a candidate
/// coordinate pending validation.
///
/// File counts from the left, starting at 0.
/// Rank counts from the bottom, starting at 0.
#[derive(Copy, Clone, Debug, PartialEq, Eq, Structural)]
pub struct UncheckedSquare {
    pub file: u8,
    pub rank: u8,
}

impl UncheckedSquare {
    /// The validated form of this coordinate.
    pub open spec fn as_square(self) -> Square {
        Square { file: self.file, rank: self.rank }
    }

    /// Verify that the square lies on the given board.
    ///
    /// The error names the axis that left the board: `File` when the file is
    /// too large, `Rank` when the square's index runs past the squares, and
    /// `Both` when both hold.
    pub fn check_with_board(self, board: &Board) -> (r: Result<Square, InvalidSquareError>)
        ensures
            r matches Ok(sq) ==> sq == self.as_square() && board.placement().in_bounds(sq),
            board.placement().in_bounds(self.as_square()) <==> r is Ok,
            r matches Err(e) ==> e == (InvalidSquareError::OutOfBounds(
                if self.file >= board.width {
                    if board.placement().index_of(self.as_square()) >= board.squares@.len() {
                        Orientation::Both
                    } else {
                        Orientation::File
                    }
                } else {
                    Orientation::Rank
                },
                self,
            )),
    {
        let index = crate::board::linear_index(self.rank, self.file, board.width);
        if self.file >= board.width {
            if index >= board.squares.len() {
                Err(InvalidSquareError::OutOfBounds(Orientation::Both, self))
            } else {
                Err(InvalidSquareError::OutOfBounds(Orientation::File, self))
            }
        } else if index >= board.squares.len() {
            Err(InvalidSquareError::OutOfBounds(Orientation::Rank, self))
        } else {
            Ok(Square { rank: self.rank, file: self.file })
        }
    }
}

} // verus!
