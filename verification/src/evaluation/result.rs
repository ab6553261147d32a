use vstd::prelude::*;

use crate::board::Board;
use crate::evaluation::evaluation_result::Evaluation;
use crate::evaluation::Evaluator;

verus! {

/// A very simple evaluator: it reports a finished game as a certain
/// result, and an unfinished one as a neutral estimate.
pub struct ResultEvaluator {}

impl ResultEvaluator {
    pub fn new() -> (r: Self)
        ensures
            r == (ResultEvaluator {  }),
    {
        ResultEvaluator {  }
    }

    /// The game's result as an evaluation: a certain result at depth zero
    /// when the game has ended, a zero estimate while it goes on.
    pub fn result_evaluation(&self, board: &Board) -> (r: Result<Evaluation, &'static str>)
        requires
            board.wf(),
            board.spec_right(
                board.current_move,
                crate::board::castling::CastlingDirection::Queenside,
            ) ==> board.standard_shape(),
            board.spec_right(
                board.current_move,
                crate::board::castling::CastlingDirection::Kingside,
            ) ==> board.standard_shape(),
        ensures
            r == Ok::<Evaluation, &'static str>(
                match board.spec_game_result() {
                    Some(outcome) => Evaluation::Certain(outcome, 0),
                    None => Evaluation::Estimate(0),
                },
            ),
    {
        let outcome = match board.get_game_result() {
            Ok(o) => o,
            Err(e) => {
                return Err(e);
            },
        };
        match outcome {
            Some(res) => Ok(Evaluation::Certain(res, 0)),
            None => Ok(Evaluation::Estimate(0)),
        }
    }
}

impl Evaluator for ResultEvaluator {
    /// Reports a finished game as a certain result; a malformed board is
    /// rejected rather than inspected.
    fn evaluate(&self, board: &Board) -> Result<Evaluation, &'static str> {
        if !board.check_wf() {
            return Err("Board is malformed");
        }
        self.result_evaluation(board)
    }
}

} // verus!
