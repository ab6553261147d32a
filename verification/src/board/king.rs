use vstd::prelude::*;

use crate::board::chess_move::ChessMove;
use crate::board::model::king_steps;
use crate::board::piece::{Piece, PieceType};
use crate::board::{king_step_offset_list, Board};

verus! {

impl Board {
    /// The king moves of the side to move (castling aside).
    pub open spec fn king_move_seq(self, checked: bool) -> Seq<ChessMove> {
        self.jump_piece_moves(
            PieceType::King,
            king_steps(),
            checked,
            self.placement().matching_positions(
                Piece { side: self.current_move, piece_type: PieceType::King },
            ).len() as int,
        )
    }

    /// Generates every one-step king move of the side to move: each of the
    /// eight unit steps from each king, validated by the legality oracle.
    pub fn generate_king_moves(&self, checked: bool) -> (r: Result<Vec<ChessMove>, &'static str>)
        requires
            self.wf(),
        ensures
            r matches Ok(v) && v@ == self.king_move_seq(checked),
    {
        let steps = king_step_offset_list();
        self.generate_jump_piece_moves(PieceType::King, &steps, checked)
    }
}

} // verus!
