use vstd::prelude::*;

use crate::board::game::ChessResult;
use crate::board::piece::Side;

verus! {

/// Hundredths of a pawn, the customary evaluation unit.
pub type Centipawns = i32;

/// A number of plies until a certain result.
pub type Depth = u8;

/// The value of a position: either an uncertain estimate in centipawns,
/// or a certain game result a known number of plies away.
#[derive(Copy, Clone, Debug, PartialEq, Eq, Structural)]
pub enum Evaluation {
    /// An evaluation whose outcome is not certain: an estimate of how much
    /// better or worse a position is, in hundredths of a pawn.
    Estimate(Centipawns),
    /// A certain game result, in a number of plies.
    Certain(ChessResult, Depth),
}

/// A three-valued comparison of integers.
pub open spec fn int_cmp(x: int, y: int) -> core::cmp::Ordering {
    if x < y {
        core::cmp::Ordering::Less
    } else if x == y {
        core::cmp::Ordering::Equal
    } else {
        core::cmp::Ordering::Greater
    }
}

/// How two evaluations compare for White: greater is better for White,
/// as the customary engine convention has it. An estimate of zero or more
/// beats a certain draw; a certain draw is compared by reaching it sooner;
/// mate against Black beats everything, mate against White loses to
/// everything, and among mates the side being mated prefers the longer
/// one while the side mating prefers the shorter.
pub open spec fn eval_cmp(a: Evaluation, b: Evaluation) -> core::cmp::Ordering {
    match (a, b) {
        (Evaluation::Estimate(x), Evaluation::Estimate(y)) => int_cmp(x as int, y as int),
        (Evaluation::Estimate(x), Evaluation::Certain(ChessResult::Draw, _)) => if x >= 0 {
            core::cmp::Ordering::Greater
        } else {
            core::cmp::Ordering::Less
        },
        (Evaluation::Estimate(_), Evaluation::Certain(ChessResult::Checkmate(s), _)) => match s {
            Side::Black => core::cmp::Ordering::Less,
            Side::White => core::cmp::Ordering::Greater,
        },
        (
            Evaluation::Certain(ChessResult::Draw, d1),
            Evaluation::Certain(ChessResult::Draw, d2),
        ) => int_cmp(d2 as int, d1 as int),
        (
            Evaluation::Certain(ChessResult::Draw, _),
            Evaluation::Certain(ChessResult::Checkmate(s), _),
        ) => match s {
            Side::White => core::cmp::Ordering::Greater,
            Side::Black => core::cmp::Ordering::Less,
        },
        (Evaluation::Certain(ChessResult::Draw, _), Evaluation::Estimate(y)) => if y >= 0 {
            core::cmp::Ordering::Less
        } else {
            core::cmp::Ordering::Greater
        },
        (
            Evaluation::Certain(ChessResult::Checkmate(s1), d1),
            Evaluation::Certain(ChessResult::Checkmate(s2), d2),
        ) => match (s1, s2) {
            (Side::White, Side::White) => int_cmp(d1 as int, d2 as int),
            (Side::White, Side::Black) => core::cmp::Ordering::Less,
            (Side::Black, Side::White) => core::cmp::Ordering::Greater,
            (Side::Black, Side::Black) => int_cmp(d2 as int, d1 as int),
        },
        (
            Evaluation::Certain(ChessResult::Checkmate(s1), _),
            Evaluation::Certain(ChessResult::Draw, _),
        ) => match s1 {
            Side::White => core::cmp::Ordering::Less,
            Side::Black => core::cmp::Ordering::Greater,
        },
        (Evaluation::Certain(ChessResult::Checkmate(s1), _), Evaluation::Estimate(_)) => match s1 {
            Side::White => core::cmp::Ordering::Less,
            Side::Black => core::cmp::Ordering::Greater,
        },
    }
}

/// Whether combining two evaluations stays within the estimate range.
pub open spec fn combine_fits(a: Evaluation, b: Evaluation) -> bool {
    match (a, b) {
        (Evaluation::Estimate(x), Evaluation::Estimate(y)) => i32::MIN <= x + y <= i32::MAX,
        _ => true,
    }
}

/// What combining two evaluations yields: estimates add; a certain result
/// swallows any estimate; of two certain results the nearer one wins, the
/// first on a tie.
pub open spec fn spec_combine(a: Evaluation, b: Evaluation) -> Evaluation {
    match (a, b) {
        (Evaluation::Estimate(x), Evaluation::Estimate(y)) => Evaluation::Estimate(
            (x + y) as i32,
        ),
        (Evaluation::Estimate(_), Evaluation::Certain(_, _)) => b,
        (Evaluation::Certain(_, _), Evaluation::Estimate(_)) => a,
        (Evaluation::Certain(_, d1), Evaluation::Certain(_, d2)) => if d1 <= d2 {
            a
        } else {
            b
        },
    }
}

impl Evaluation {
    /// Returns a deepened evaluation: a certain result moves one ply
    /// further away, an estimate is unchanged.
    pub fn deepen(self) -> (r: Self)
        requires
            self matches Evaluation::Certain(_, d) ==> d < 255,
        ensures
            (self matches Evaluation::Certain(res, d) ==> r == Evaluation::Certain(
                res,
                (d + 1) as u8,
            )),
            self matches Evaluation::Estimate(_) ==> r == self,
    {
        if let Evaluation::Certain(r, d) = self {
            Evaluation::Certain(r, d + 1)
        } else {
            self
        }
    }

    /// Combines this evaluation with another, as a sum of evaluators does.
    pub fn combine(self, rhs: Self) -> (r: Self)
        requires
            combine_fits(self, rhs),
        ensures
            r == spec_combine(self, rhs),
    {
        match self {
            Evaluation::Estimate(x) => match rhs {
                Evaluation::Estimate(y) => Evaluation::Estimate(x + y),
                Evaluation::Certain(_, _) => rhs,
            },
            Evaluation::Certain(_, d1) => match rhs {
                Evaluation::Estimate(_) => self,
                Evaluation::Certain(_, d2) => if d1 <= d2 {
                    self
                } else {
                    rhs
                },
            },
        }
    }

    /// The comparison of this evaluation with another, for White.
    fn compare(&self, other: &Self) -> (r: core::cmp::Ordering)
        ensures
            r == eval_cmp(*self, *other),
    {
        match *self {
            Evaluation::Estimate(x) => match *other {
                Evaluation::Estimate(y) => if x < y {
                    core::cmp::Ordering::Less
                } else if x == y {
                    core::cmp::Ordering::Equal
                } else {
                    core::cmp::Ordering::Greater
                },
                Evaluation::Certain(ChessResult::Draw, _) => if x >= 0 {
                    core::cmp::Ordering::Greater
                } else {
                    core::cmp::Ordering::Less
                },
                Evaluation::Certain(ChessResult::Checkmate(s), _) => match s {
                    Side::Black => core::cmp::Ordering::Less,
                    Side::White => core::cmp::Ordering::Greater,
                },
            },
            Evaluation::Certain(ChessResult::Draw, d1) => match *other {
                Evaluation::Estimate(y) => if y >= 0 {
                    core::cmp::Ordering::Less
                } else {
                    core::cmp::Ordering::Greater
                },
                Evaluation::Certain(ChessResult::Draw, d2) => if d2 < d1 {
                    core::cmp::Ordering::Less
                } else if d2 == d1 {
                    core::cmp::Ordering::Equal
                } else {
                    core::cmp::Ordering::Greater
                },
                Evaluation::Certain(ChessResult::Checkmate(s), _) => match s {
                    Side::White => core::cmp::Ordering::Greater,
                    Side::Black => core::cmp::Ordering::Less,
                },
            },
            Evaluation::Certain(ChessResult::Checkmate(s1), d1) => match *other {
                Evaluation::Estimate(_) => match s1 {
                    Side::White => core::cmp::Ordering::Less,
                    Side::Black => core::cmp::Ordering::Greater,
                },
                Evaluation::Certain(ChessResult::Draw, _) => match s1 {
                    Side::White => core::cmp::Ordering::Less,
                    Side::Black => core::cmp::Ordering::Greater,
                },
                Evaluation::Certain(ChessResult::Checkmate(s2), d2) => match (s1, s2) {
                    (Side::White, Side::White) => if d1 < d2 {
                        core::cmp::Ordering::Less
                    } else if d1 == d2 {
                        core::cmp::Ordering::Equal
                    } else {
                        core::cmp::Ordering::Greater
                    },
                    (Side::White, Side::Black) => core::cmp::Ordering::Less,
                    (Side::Black, Side::White) => core::cmp::Ordering::Greater,
                    (Side::Black, Side::Black) => if d2 < d1 {
                        core::cmp::Ordering::Less
                    } else if d2 == d1 {
                        core::cmp::Ordering::Equal
                    } else {
                        core::cmp::Ordering::Greater
                    },
                },
            },
        }
    }
}

impl PartialOrd for Evaluation {
    fn partial_cmp(&self, other: &Self) -> (r: Option<core::cmp::Ordering>) {
        Some(self.compare(other))
    }
}

impl vstd::std_specs::cmp::PartialOrdSpecImpl for Evaluation {
    open spec fn obeys_partial_cmp_spec() -> bool {
        true
    }

    open spec fn partial_cmp_spec(&self, other: &Self) -> Option<core::cmp::Ordering> {
        Some(eval_cmp(*self, *other))
    }
}

} // verus!
