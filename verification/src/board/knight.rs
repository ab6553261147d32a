use vstd::prelude::*;

use crate::board::chess_move::ChessMove;
use crate::board::model::knight_jumps;
use crate::board::piece::{Piece, PieceType};
use crate::board::{knight_offset_list, Board};

verus! {

impl Board {
    /// The knight moves of the side to move.
    pub open spec fn knight_move_seq(self, checked: bool) -> Seq<ChessMove> {
        self.jump_piece_moves(
            PieceType::Knight,
            knight_jumps(),
            checked,
            self.placement().matching_positions(
                Piece { side: self.current_move, piece_type: PieceType::Knight },
            ).len() as int,
        )
    }

    /// Generates every knight move of the side to move: each of the eight
    /// L-shaped jumps from each knight, validated by the legality oracle.
    pub fn generate_knight_moves(&self, checked: bool) -> (r: Result<Vec<ChessMove>, &'static str>)
        requires
            self.wf(),
        ensures
            r matches Ok(v) && v@ == self.knight_move_seq(checked),
    {
        let jumps = knight_offset_list();
        self.generate_jump_piece_moves(PieceType::Knight, &jumps, checked)
    }
}

} // verus!
