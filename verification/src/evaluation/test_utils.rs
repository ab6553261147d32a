use vstd::prelude::*;

use crate::board::Board;
use crate::evaluation::evaluation_result::Evaluation;
use crate::evaluation::Evaluator;

verus! {

/// An evaluator that returns a fixed result whatever the board; the
/// composite evaluator's tests are built from these.
pub struct DummyEvaluator {
    pub result: Evaluation,
}

impl Evaluator for DummyEvaluator {
    fn evaluate(&self, _board: &Board) -> Result<Evaluation, &'static str> {
        Ok(self.result)
    }
}

} // verus!
