//! Position evaluation: scoring boards through the core's interface.

pub mod composite;
pub mod evaluation_result;
pub mod material;
pub mod result;
pub mod test_utils;

use vstd::prelude::*;

use crate::board::Board;
use crate::evaluation::evaluation_result::Evaluation;

verus! {

/// An evaluator takes a board as an input and returns its value, with a
/// positive value favouring White.
///
/// Implementations may be complex and take time to initialize, so the same
/// evaluator should be persisted as long as possible. What a particular
/// implementation returns is its own affair: callers that hold a concrete
/// evaluator get its contract, callers that only hold the trait do not.
pub trait Evaluator {
    fn evaluate(&self, board: &Board) -> Result<Evaluation, &'static str>;
}

} // verus!
