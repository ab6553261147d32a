use vstd::prelude::*;

use crate::board::piece::Side;

verus! {

/// The result of a finished chess game: a draw, or checkmate against the
/// named side.
#[derive(Copy, Clone, Debug, PartialEq, Eq, Structural)]
pub enum ChessResult {
    Draw,
    Checkmate(Side),
}

impl ChessResult {
    /// How good this result is for White: checkmate against White is
    /// worst, a draw sits in the middle, checkmate against Black is best.
    pub open spec fn white_rank(self) -> int {
        match self {
            ChessResult::Checkmate(Side::White) => 0,
            ChessResult::Draw => 1,
            ChessResult::Checkmate(Side::Black) => 2,
        }
    }

    /// The value `white_rank` assigns, as a number.
    fn white_rank_value(&self) -> (r: i32)
        ensures
            r as int == self.white_rank(),
    {
        match *self {
            ChessResult::Checkmate(Side::White) => 0,
            ChessResult::Draw => 1,
            ChessResult::Checkmate(Side::Black) => 2,
        }
    }
}

impl PartialOrd for ChessResult {
    /// Orders results by how good they are for White, so that the result
    /// can feed a larger comparison of evaluations: White being better is
    /// counted positive, Black being better negative.
    fn partial_cmp(&self, other: &Self) -> (r: Option<core::cmp::Ordering>) {
        let a = self.white_rank_value();
        let b = other.white_rank_value();
        if a < b {
            Some(core::cmp::Ordering::Less)
        } else if a == b {
            Some(core::cmp::Ordering::Equal)
        } else {
            Some(core::cmp::Ordering::Greater)
        }
    }
}

impl vstd::std_specs::cmp::PartialOrdSpecImpl for ChessResult {
    open spec fn obeys_partial_cmp_spec() -> bool {
        true
    }

    open spec fn partial_cmp_spec(&self, other: &Self) -> Option<core::cmp::Ordering> {
        Some(
            if self.white_rank() < other.white_rank() {
                core::cmp::Ordering::Less
            } else if self.white_rank() == other.white_rank() {
                core::cmp::Ordering::Equal
            } else {
                core::cmp::Ordering::Greater
            },
        )
    }
}

} // verus!
