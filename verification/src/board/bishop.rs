use vstd::prelude::*;

use crate::board::chess_move::ChessMove;
use crate::board::model::bishop_dirs;
use crate::board::piece::{Piece, PieceType};
use crate::board::{bishop_offset_list, Board};

verus! {

impl Board {
    /// The bishop moves of the side to move.
    pub open spec fn bishop_move_seq(self, checked: bool) -> Seq<ChessMove> {
        self.slide_piece_moves(
            PieceType::Bishop,
            bishop_dirs(),
            checked,
            self.placement().matching_positions(
                Piece { side: self.current_move, piece_type: PieceType::Bishop },
            ).len() as int,
        )
    }

    /// Generates every bishop move of the side to move: rays along the four
    /// diagonals, validated by the legality oracle.
    pub fn generate_bishop_moves(&self, checked: bool) -> (r: Result<Vec<ChessMove>, &'static str>)
        requires
            self.wf(),
        ensures
            r matches Ok(v) && v@ == self.bishop_move_seq(checked),
    {
        let dirs = bishop_offset_list();
        self.generate_straight_moves(&dirs, PieceType::Bishop, checked)
    }
}

} // verus!
