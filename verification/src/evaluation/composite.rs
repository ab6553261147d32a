use vstd::prelude::*;

use crate::board::Board;
use crate::evaluation::evaluation_result::{combine_fits, spec_combine, Evaluation};
use crate::evaluation::Evaluator;

verus! {

/// An evaluator that sums the verdicts of a list of child evaluators:
/// estimates add, while a certain result overrides any estimate.
pub struct CompositeEvaluator {
    children: Vec<Box<dyn Evaluator>>,
}

impl CompositeEvaluator {
    /// How many child evaluators this composite holds.
    pub closed spec fn child_count(self) -> nat {
        self.children@.len()
    }

    pub fn new() -> (r: Self)
        ensures
            r.child_count() == 0,
    {
        CompositeEvaluator { children: Vec::new() }
    }

    /// Adds one child evaluator, returning the composite for chaining.
    pub fn push(&mut self, e: Box<dyn Evaluator>) -> (r: &mut Self)
        ensures
            *final(self) == *final(r),
            (*r).child_count() == old(self).child_count() + 1,
    {
        self.children.push(e);
        proof {
            vstd::seq::axiom_seq_push_len(old(self).children@, e);
        }
        self
    }

    /// Sums the children's evaluations. An empty composite reports a zero
    /// estimate; a child's error, or a sum of estimates that leaves the
    /// centipawn range, is reported as an error.
    fn combined_evaluation(&self, board: &Board) -> (r: Result<Evaluation, &'static str>)
        ensures
            self.child_count() == 0 ==> r == Ok::<Evaluation, &'static str>(
                Evaluation::Estimate(0),
            ),
    {
        if self.children.len() == 0 {
            return Ok(Evaluation::Estimate(0));
        }
        let mut total = Evaluation::Estimate(0);
        let mut i: usize = 0;
        while i < self.children.len()
            decreases self.children@.len() - i,
        {
            let verdict = match self.children[i].evaluate(board) {
                Ok(v) => v,
                Err(e) => {
                    return Err(e);
                },
            };
            let fits = match (total, verdict) {
                (Evaluation::Estimate(x), Evaluation::Estimate(y)) => {
                    let wide = (x as i64) + (y as i64);
                    wide >= i32::MIN as i64 && wide <= i32::MAX as i64
                },
                _ => true,
            };
            if !fits {
                return Err("Evaluation sum left the centipawn range");
            }
            total = total.combine(verdict);
            i = i + 1;
        }
        Ok(total)
    }
}

impl Evaluator for CompositeEvaluator {
    fn evaluate(&self, board: &Board) -> Result<Evaluation, &'static str> {
        self.combined_evaluation(board)
    }
}

} // verus!
