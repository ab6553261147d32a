use vstd::prelude::*;

use crate::board::chess_move::ChessMove;
use crate::board::model::rook_dirs;
use crate::board::piece::{Piece, PieceType};
use crate::board::{rook_offset_list, Board};

verus! {

impl Board {
    /// The rook moves of the side to move.
    pub open spec fn rook_move_seq(self, checked: bool) -> Seq<ChessMove> {
        self.slide_piece_moves(
            PieceType::Rook,
            rook_dirs(),
            checked,
            self.placement().matching_positions(
                Piece { side: self.current_move, piece_type: PieceType::Rook },
            ).len() as int,
        )
    }

    /// Generates every rook move of the side to move: rays along the four
    /// orthogonals, validated by the legality oracle.
    pub fn generate_rook_moves(&self, checked: bool) -> (r: Result<Vec<ChessMove>, &'static str>)
        requires
            self.wf(),
        ensures
            r matches Ok(v) && v@ == self.rook_move_seq(checked),
    {
        let dirs = rook_offset_list();
        self.generate_straight_moves(&dirs, PieceType::Rook, checked)
    }
}

} // verus!
