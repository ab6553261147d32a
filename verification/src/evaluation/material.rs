use vstd::prelude::*;

use crate::board::piece::{Piece, PieceType, Side};
use crate::board::Board;
use crate::evaluation::evaluation_result::Evaluation;
use crate::evaluation::Evaluator;

verus! {

/// The centipawn value of one piece, signed toward White.
pub open spec fn spec_material_value(piece: Piece) -> int {
    let magnitude: int = match piece.piece_type {
        PieceType::King => 10000,
        PieceType::Pawn => 100,
        PieceType::Bishop => 300,
        PieceType::Knight => 300,
        PieceType::Rook => 500,
        PieceType::Queen => 900,
    };
    if piece.side == Side::Black {
        -magnitude
    } else {
        magnitude
    }
}

/// The summed material of the first `n` squares, signed toward White.
pub open spec fn spec_material_sum(squares: Seq<Option<Piece>>, n: int) -> int
    decreases n,
{
    if n <= 0 {
        0
    } else {
        spec_material_sum(squares, n - 1) + match squares[n - 1] {
            Some(p) => spec_material_value(p),
            None => 0,
        }
    }
}

/// The centipawn value of one piece.
fn get_material_value(piece: Piece) -> (r: i32)
    ensures
        r as int == spec_material_value(piece),
        -10000 <= r <= 10000,
{
    let value: i32 = match piece.piece_type {
        // The king carries an arbitrarily high value, since losing it
        // would lose the game.
        PieceType::King => 10000,
        // Other piece values are conventional chess wisdom.
        PieceType::Pawn => 100,
        PieceType::Bishop => 300,
        PieceType::Knight => 300,
        PieceType::Rook => 500,
        PieceType::Queen => 900,
    };
    if piece.side == Side::Black {
        -value
    } else {
        value
    }
}

/// The simplest evaluator that is still somewhat useful: it scores a
/// position by its material alone.
pub struct MaterialEvaluator {}

impl MaterialEvaluator {
    pub fn new() -> (r: Self)
        ensures
            r == (MaterialEvaluator {  }),
    {
        MaterialEvaluator {  }
    }

    /// The total material on the board, in centipawns toward White.
    pub fn material_estimate(&self, board: &Board) -> (r: Evaluation)
        requires
            board.squares@.len() <= 65536,
        ensures
            r == Evaluation::Estimate(
                spec_material_sum(board.squares@, board.squares@.len() as int) as i32,
            ),
    {
        let mut centipawns: i32 = 0;
        let mut i: usize = 0;
        while i < board.squares.len()
            invariant
                board.squares@.len() <= 65536,
                i <= board.squares@.len(),
                centipawns as int == spec_material_sum(board.squares@, i as int),
                -10000 * i <= centipawns as int <= 10000 * i,
            decreases board.squares@.len() - i,
        {
            match board.squares[i] {
                Some(p) => {
                    let v = get_material_value(p);
                    proof {
                        assert(-10000 * (i + 1) == -10000 * i + -10000) by (nonlinear_arith);
                        assert(10000 * (i + 1) == 10000 * i + 10000) by (nonlinear_arith);
                        assert(10000 * (i + 1) <= 10000 * 65536) by (nonlinear_arith)
                            requires
                                i + 1 <= 65536,
                        ;
                        assert(-10000 * (i + 1) >= -10000 * 65536) by (nonlinear_arith)
                            requires
                                i + 1 <= 65536,
                        ;
                    }
                    centipawns = centipawns + v;
                },
                None => {
                    proof {
                        assert(-10000 * (i + 1) <= -10000 * i) by (nonlinear_arith);
                        assert(10000 * i <= 10000 * (i + 1)) by (nonlinear_arith);
                    }
                },
            }
            i = i + 1;
        }
        Evaluation::Estimate(centipawns)
    }
}

impl Evaluator for MaterialEvaluator {
    /// Scores the board by material alone; a board too large to sum is
    /// rejected rather than overflowed.
    fn evaluate(&self, board: &Board) -> Result<Evaluation, &'static str> {
        if board.squares.len() > 65536 {
            return Err("Board has too many squares to evaluate");
        }
        Ok(self.material_estimate(board))
    }
}

} // verus!
