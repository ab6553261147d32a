use vstd::prelude::*;

use crate::board::chess_move::ChessMove;
use crate::board::piece::{Piece, PieceType};
use crate::board::square::Square;
use crate::board::{Board, Offset};

verus! {

impl Board {
    /// The candidate destinations of the given ray directions from `pos`:
    /// for each direction, every square out to the capturing ray's end.
    fn slide_candidate_squares(&self, pos: Square, offsets: &Vec<Offset>) -> (r: Vec<Square>)
        requires
            self.wf(),
            self.placement().in_bounds(pos),
            forall|j: int|
                0 <= j < offsets@.len() ==> ((#[trigger] offsets@[j]).file != 0
                    || offsets@[j].rank != 0),
        ensures
            r@ == self.slide_candidates(pos, offsets@, offsets@.len() as int),
            forall|j: int| 0 <= j < r@.len() ==> self.placement().in_bounds(#[trigger] r@[j]),
    {
        let mut candidates: Vec<Square> = Vec::new();
        let mut i: usize = 0;
        while i < offsets.len()
            invariant
                self.wf(),
                self.placement().in_bounds(pos),
                forall|j: int|
                    0 <= j < offsets@.len() ==> ((#[trigger] offsets@[j]).file != 0
                        || offsets@[j].rank != 0),
                i <= offsets@.len(),
                candidates@ == self.slide_candidates(pos, offsets@, i as int),
                forall|j: int|
                    0 <= j < candidates@.len() ==> self.placement().in_bounds(
                        #[trigger] candidates@[j],
                    ),
            decreases offsets@.len() - i,
        {
            let dir = offsets[i];
            let extent = self.check_ray_for_pieces(pos, dir, true);
            proof {
                self.placement().lemma_ray_reaches_end(pos, dir, true);
                self.placement().lemma_span_in_bounds(pos, extent, dir);
            }
            match self.get_all_squares_between(pos, extent, dir) {
                Ok(mut segment) => {
                    candidates.append(&mut segment);
                },
                Err(_) => {},
            }
            assert(candidates@ == self.slide_candidates(pos, offsets@, i + 1));
            i = i + 1;
        }
        candidates
    }

    /// The moves of the side to move's sliding pieces of one kind: for
    /// each such piece in index order and each ray direction, every square
    /// out to the ray's end that the legality oracle accepts.
    pub(crate) fn generate_straight_moves(
        &self,
        offsets: &Vec<Offset>,
        piece_type: PieceType,
        checked: bool,
    ) -> (r: Result<Vec<ChessMove>, &'static str>)
        requires
            self.wf(),
            forall|j: int|
                0 <= j < offsets@.len() ==> ((#[trigger] offsets@[j]).file != 0
                    || offsets@[j].rank != 0),
        ensures
            r matches Ok(v) && v@ == self.slide_piece_moves(
                piece_type,
                offsets@,
                checked,
                self.placement().matching_positions(
                    Piece { side: self.current_move, piece_type },
                ).len() as int,
            ),
    {
        let piece = Piece::new(self.get_current_side(), piece_type);
        let positions = match self.get_positions_of_matching_pieces(piece) {
            Ok(v) => v,
            Err(e) => {
                return Err(e);
            },
        };
        proof {
            self.placement().lemma_matching_positions_valid(piece);
        }

        let mut moves: Vec<ChessMove> = Vec::new();
        let mut i: usize = 0;
        while i < positions.len()
            invariant
                self.wf(),
                piece == (Piece { side: self.current_move, piece_type }),
                positions@ == self.placement().matching_positions(piece),
                forall|j: int|
                    0 <= j < positions@.len() ==> self.placement().in_bounds(
                        #[trigger] positions@[j],
                    ),
                forall|j: int|
                    0 <= j < offsets@.len() ==> ((#[trigger] offsets@[j]).file != 0
                        || offsets@[j].rank != 0),
                i <= positions@.len(),
                moves@ == self.slide_piece_moves(piece_type, offsets@, checked, i as int),
            decreases positions@.len() - i,
        {
            let pos = positions[i];
            let candidates = self.slide_candidate_squares(pos, offsets);
            let mut new_moves = self.allowed_moves_from(pos, &candidates, checked);
            moves.append(&mut new_moves);
            assert(moves@ == self.slide_piece_moves(piece_type, offsets@, checked, i + 1));
            i = i + 1;
        }
        Ok(moves)
    }
}

} // verus!
