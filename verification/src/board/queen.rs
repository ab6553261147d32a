use vstd::prelude::*;

use crate::board::chess_move::ChessMove;
use crate::board::model::queen_dirs;
use crate::board::piece::{Piece, PieceType};
use crate::board::{queen_offset_list, Board};

verus! {

impl Board {
    /// The queen moves of the side to move.
    pub open spec fn queen_move_seq(self, checked: bool) -> Seq<ChessMove> {
        self.slide_piece_moves(
            PieceType::Queen,
            queen_dirs(),
            checked,
            self.placement().matching_positions(
                Piece { side: self.current_move, piece_type: PieceType::Queen },
            ).len() as int,
        )
    }

    /// Generates every queen move of the side to move: rays along all eight
    /// directions, validated by the legality oracle.
    pub fn generate_queen_moves(&self, checked: bool) -> (r: Result<Vec<ChessMove>, &'static str>)
        requires
            self.wf(),
        ensures
            r matches Ok(v) && v@ == self.queen_move_seq(checked),
    {
        let dirs = queen_offset_list();
        self.generate_straight_moves(&dirs, PieceType::Queen, checked)
    }
}

} // verus!
