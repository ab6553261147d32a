use vstd::prelude::*;

use crate::board::chess_move::ChessMove;
use crate::board::piece::{Piece, PieceType, Side};
use crate::board::square::Square;
use crate::board::{Board, Offset};

verus! {

/// The en-passant law: a two-square pawn push leaves exactly one
/// en-passant target, the square it passed over; applying any other move
/// clears the target to none.
pub proof fn lemma_en_passant_target_law(pre: Board, m: ChessMove, post: Board)
    requires
        crate::board::is_after_move(pre, m, post),
    ensures
        post.en_passant_target matches Some(t) ==> (m matches ChessMove::SimpleMove(from, to)
            && pre.is_double_pawn_push(from, to) && t == Board::push_middle_square(from, to)),
        m matches ChessMove::SimpleMove(from, to) ==> (pre.is_double_pawn_push(from, to)
            ==> post.en_passant_target == Some(Board::push_middle_square(from, to))),
        !(m matches ChessMove::SimpleMove(from, to) && pre.is_double_pawn_push(from, to))
            ==> post.en_passant_target is None,
{
}

impl Board {
    /// The rank direction the side to move's pawns advance in.
    pub open spec fn pawn_dir(self) -> i8 {
        match self.current_move {
            Side::White => 1i8,
            Side::Black => -1i8,
        }
    }

    /// One step forward for the side to move's pawns.
    pub open spec fn pawn_forward(self) -> Offset {
        Offset { file: 0i8, rank: self.pawn_dir() }
    }

    /// The rank a pawn of the side to move may double-push from: the rank
    /// just inside the side's own edge of the board.
    pub open spec fn pawn_start_rank(self) -> int {
        match self.current_move {
            Side::White => 1,
            Side::Black => self.placement().height() - 2,
        }
    }

    /// The positions of the side to move's pawns, in index order.
    pub open spec fn pawn_positions(self) -> Seq<Square> {
        self.placement().matching_positions(
            Piece { side: self.current_move, piece_type: PieceType::Pawn },
        )
    }

    /// The single push a pawn at `pos` contributes: one step forward onto
    /// an empty square, validated by the legality oracle.
    pub open spec fn pawn_single_contribution(self, pos: Square, checked: bool) -> Seq<ChessMove> {
        match self.placement().step(pos, self.pawn_forward()) {
            Some(to) => if self.placement().piece_at(to) is None && self.move_allowed(
                ChessMove::SimpleMove(pos, to),
                checked,
            ) {
                seq![ChessMove::SimpleMove(pos, to)]
            } else {
                Seq::empty()
            },
            None => Seq::empty(),
        }
    }

    /// The single pushes of the first `n` pawns.
    pub open spec fn pawn_single_moves(self, checked: bool, n: int) -> Seq<ChessMove>
        decreases n,
    {
        if n <= 0 {
            Seq::empty()
        } else {
            self.pawn_single_moves(checked, n - 1) + self.pawn_single_contribution(
                self.pawn_positions()[n - 1],
                checked,
            )
        }
    }

    /// The double push a pawn at `pos` contributes: two steps forward from
    /// the side's starting rank, over an empty square onto an empty square,
    /// validated by the legality oracle.
    pub open spec fn pawn_double_contribution(self, pos: Square, checked: bool) -> Seq<ChessMove> {
        if pos.rank as int != self.pawn_start_rank() {
            Seq::empty()
        } else {
            match self.placement().step(pos, self.pawn_forward()) {
                Some(mid) => match self.placement().step(mid, self.pawn_forward()) {
                    Some(to) => if self.placement().piece_at(mid) is None
                        && self.placement().piece_at(to) is None && self.move_allowed(
                        ChessMove::SimpleMove(pos, to),
                        checked,
                    ) {
                        seq![ChessMove::SimpleMove(pos, to)]
                    } else {
                        Seq::empty()
                    },
                    None => Seq::empty(),
                },
                None => Seq::empty(),
            }
        }
    }

    /// The double pushes of the first `n` pawns.
    pub open spec fn pawn_double_moves(self, checked: bool, n: int) -> Seq<ChessMove>
        decreases n,
    {
        if n <= 0 {
            Seq::empty()
        } else {
            self.pawn_double_moves(checked, n - 1) + self.pawn_double_contribution(
                self.pawn_positions()[n - 1],
                checked,
            )
        }
    }

    /// The capture a pawn at `pos` contributes toward file direction `df`:
    /// one step forward-diagonal onto a square an opposing piece occupies,
    /// validated by the legality oracle.
    pub open spec fn pawn_capture_contribution(
        self,
        pos: Square,
        df: i8,
        checked: bool,
    ) -> Seq<ChessMove> {
        match self.placement().step(pos, Offset { file: df, rank: self.pawn_dir() }) {
            Some(to) => if self.placement().enemy_piece_at(to) && self.move_allowed(
                ChessMove::SimpleMove(pos, to),
                checked,
            ) {
                seq![ChessMove::SimpleMove(pos, to)]
            } else {
                Seq::empty()
            },
            None => Seq::empty(),
        }
    }

    /// The diagonal captures of the first `n` pawns toward one side.
    pub open spec fn pawn_capture_moves(self, df: i8, checked: bool, n: int) -> Seq<ChessMove>
        decreases n,
    {
        if n <= 0 {
            Seq::empty()
        } else {
            self.pawn_capture_moves(df, checked, n - 1) + self.pawn_capture_contribution(
                self.pawn_positions()[n - 1],
                df,
                checked,
            )
        }
    }

    /// The en-passant capture a pawn at `pos` contributes toward file
    /// direction `df`: one step forward-diagonal onto the current
    /// en-passant target, also clearing the bypassed pawn, validated by
    /// the legality oracle.
    pub open spec fn pawn_ep_contribution(self, pos: Square, df: i8, checked: bool) -> Seq<
        ChessMove,
    > {
        match self.placement().step(pos, Offset { file: df, rank: self.pawn_dir() }) {
            Some(to) => {
                let cap = Square { rank: pos.rank, file: to.file };
                if Some(to) == self.en_passant_target && self.move_allowed(
                    ChessMove::EnPassant(pos, to, cap),
                    checked,
                ) {
                    seq![ChessMove::EnPassant(pos, to, cap)]
                } else {
                    Seq::empty()
                }
            },
            None => Seq::empty(),
        }
    }

    /// The en-passant captures of the first `n` pawns toward one side.
    pub open spec fn pawn_ep_moves(self, df: i8, checked: bool, n: int) -> Seq<ChessMove>
        decreases n,
    {
        if n <= 0 {
            Seq::empty()
        } else {
            self.pawn_ep_moves(df, checked, n - 1) + self.pawn_ep_contribution(
                self.pawn_positions()[n - 1],
                df,
                checked,
            )
        }
    }

    /// Every pawn move of the side to move: single pushes, double pushes,
    /// captures toward the lower then the higher files, and en-passant
    /// captures in the same order.
    pub open spec fn pawn_move_seq(self, checked: bool) -> Seq<ChessMove> {
        let n = self.pawn_positions().len() as int;
        self.pawn_single_moves(checked, n) + self.pawn_double_moves(checked, n)
            + self.pawn_capture_moves(-1i8, checked, n) + self.pawn_capture_moves(1i8, checked, n)
            + self.pawn_ep_moves(-1i8, checked, n) + self.pawn_ep_moves(1i8, checked, n)
    }
    /// One forward step of the side to move's pawns, as a value.
    fn pawn_forward_offset(&self) -> (r: Offset)
        ensures
            r == self.pawn_forward(),
    {
        match self.current_move {
            Side::White => Offset { file: 0, rank: 1 },
            Side::Black => Offset { file: 0, rank: -1 },
        }
    }

    /// The single pushes of the side to move's pawns, in index order.
    fn pawn_single_phase(&self, positions: &Vec<Square>, checked: bool) -> (r: Vec<ChessMove>)
        requires
            self.wf(),
            positions@ == self.pawn_positions(),
            forall|j: int|
                0 <= j < positions@.len() ==> self.placement().in_bounds(
                    #[trigger] positions@[j],
                ),
        ensures
            r@ == self.pawn_single_moves(checked, positions@.len() as int),
    {
        let forward = self.pawn_forward_offset();
        let mut moves: Vec<ChessMove> = Vec::new();
        let mut i: usize = 0;
        while i < positions.len()
            invariant
                self.wf(),
                positions@ == self.pawn_positions(),
                forall|j: int|
                    0 <= j < positions@.len() ==> self.placement().in_bounds(
                        #[trigger] positions@[j],
                    ),
                forward == self.pawn_forward(),
                i <= positions@.len(),
                moves@ == self.pawn_single_moves(checked, i as int),
            decreases positions@.len() - i,
        {
            let pos = positions[i];
            match self.add_offset_to_position(pos, forward) {
                Ok(to) => {
                    let destination_free = match self.get_piece_at_position(to) {
                        Ok(None) => true,
                        _ => false,
                    };
                    if destination_free {
                        match self.new_board_with_moved_piece(pos, to, checked) {
                            Ok(_) => {
                                moves.push(ChessMove::SimpleMove(pos, to));
                            },
                            Err(_) => {},
                        }
                    }
                },
                Err(_) => {},
            }
            assert(moves@ =~= self.pawn_single_moves(checked, i + 1));
            i = i + 1;
        }
        moves
    }

    /// The double pushes of the side to move's pawns, in index order.
    fn pawn_double_phase(&self, positions: &Vec<Square>, checked: bool) -> (r: Vec<ChessMove>)
        requires
            self.wf(),
            positions@ == self.pawn_positions(),
            forall|j: int|
                0 <= j < positions@.len() ==> self.placement().in_bounds(
                    #[trigger] positions@[j],
                ),
        ensures
            r@ == self.pawn_double_moves(checked, positions@.len() as int),
    {
        let forward = self.pawn_forward_offset();
        let mut moves: Vec<ChessMove> = Vec::new();
        let mut i: usize = 0;
        while i < positions.len()
            invariant
                self.wf(),
                positions@ == self.pawn_positions(),
                forall|j: int|
                    0 <= j < positions@.len() ==> self.placement().in_bounds(
                        #[trigger] positions@[j],
                    ),
                forward == self.pawn_forward(),
                i <= positions@.len(),
                moves@ == self.pawn_double_moves(checked, i as int),
            decreases positions@.len() - i,
        {
            let pos = positions[i];
            let on_start_rank: bool = match self.current_move {
                Side::White => pos.rank == 1,
                Side::Black => (pos.rank as usize) + 2 == self.squares.len() / (
                self.width as usize),
            };
            if on_start_rank {
                match self.add_offset_to_position(pos, forward) {
                    Ok(mid) => {
                        match self.add_offset_to_position(mid, forward) {
                            Ok(to) => {
                                let mid_free = match self.get_piece_at_position(mid) {
                                    Ok(None) => true,
                                    _ => false,
                                };
                                let to_free = match self.get_piece_at_position(to) {
                                    Ok(None) => true,
                                    _ => false,
                                };
                                if mid_free && to_free {
                                    match self.new_board_with_moved_piece(pos, to, checked) {
                                        Ok(_) => {
                                            moves.push(ChessMove::SimpleMove(pos, to));
                                        },
                                        Err(_) => {},
                                    }
                                }
                            },
                            Err(_) => {},
                        }
                    },
                    Err(_) => {},
                }
            }
            assert(moves@ =~= self.pawn_double_moves(checked, i + 1));
            i = i + 1;
        }
        moves
    }

    /// The diagonal captures of the side to move's pawns toward file
    /// direction `df`, in index order.
    fn pawn_capture_phase(&self, positions: &Vec<Square>, df: i8, checked: bool) -> (r: Vec<
        ChessMove,
    >)
        requires
            self.wf(),
            positions@ == self.pawn_positions(),
            forall|j: int|
                0 <= j < positions@.len() ==> self.placement().in_bounds(
                    #[trigger] positions@[j],
                ),
        ensures
            r@ == self.pawn_capture_moves(df, checked, positions@.len() as int),
    {
        let forward = self.pawn_forward_offset();
        let diagonal = Offset { file: df, rank: forward.rank };
        let mut moves: Vec<ChessMove> = Vec::new();
        let mut i: usize = 0;
        while i < positions.len()
            invariant
                self.wf(),
                positions@ == self.pawn_positions(),
                forall|j: int|
                    0 <= j < positions@.len() ==> self.placement().in_bounds(
                        #[trigger] positions@[j],
                    ),
                diagonal == (Offset { file: df, rank: self.pawn_dir() }),
                i <= positions@.len(),
                moves@ == self.pawn_capture_moves(df, checked, i as int),
            decreases positions@.len() - i,
        {
            let pos = positions[i];
            match self.add_offset_to_position(pos, diagonal) {
                Ok(to) => {
                    let enemy_there = match self.get_piece_at_position(to) {
                        Ok(Some(q)) => q.side == self.get_current_side().flip(),
                        _ => false,
                    };
                    if enemy_there {
                        match self.new_board_with_moved_piece(pos, to, checked) {
                            Ok(_) => {
                                moves.push(ChessMove::SimpleMove(pos, to));
                            },
                            Err(_) => {},
                        }
                    }
                },
                Err(_) => {},
            }
            assert(moves@ =~= self.pawn_capture_moves(df, checked, i + 1));
            i = i + 1;
        }
        moves
    }

    /// The en-passant captures of the side to move's pawns toward file
    /// direction `df`, in index order.
    fn pawn_ep_phase(&self, positions: &Vec<Square>, df: i8, checked: bool) -> (r: Vec<ChessMove>)
        requires
            self.wf(),
            positions@ == self.pawn_positions(),
            forall|j: int|
                0 <= j < positions@.len() ==> self.placement().in_bounds(
                    #[trigger] positions@[j],
                ),
        ensures
            r@ == self.pawn_ep_moves(df, checked, positions@.len() as int),
    {
        let forward = self.pawn_forward_offset();
        let diagonal = Offset { file: df, rank: forward.rank };
        let mut moves: Vec<ChessMove> = Vec::new();
        let mut i: usize = 0;
        while i < positions.len()
            invariant
                self.wf(),
                positions@ == self.pawn_positions(),
                forall|j: int|
                    0 <= j < positions@.len() ==> self.placement().in_bounds(
                        #[trigger] positions@[j],
                    ),
                diagonal == (Offset { file: df, rank: self.pawn_dir() }),
                i <= positions@.len(),
                moves@ == self.pawn_ep_moves(df, checked, i as int),
            decreases positions@.len() - i,
        {
            let pos = positions[i];
            match self.add_offset_to_position(pos, diagonal) {
                Ok(to) => {
                    let is_target = match self.en_passant_target {
                        Some(t) => t == to,
                        None => false,
                    };
                    if is_target {
                        let cap = Square { rank: pos.rank, file: to.file };
                        proof {
                            self.placement().lemma_row_in_bounds(pos, to.file);
                        }
                        match self.trial_move(ChessMove::EnPassant(pos, to, cap), checked) {
                            Ok(_) => {
                                moves.push(ChessMove::EnPassant(pos, to, cap));
                            },
                            Err(_) => {},
                        }
                    }
                },
                Err(_) => {},
            }
            assert(moves@ =~= self.pawn_ep_moves(df, checked, i + 1));
            i = i + 1;
        }
        moves
    }

    /// Generates every pawn move of the side to move: single pushes,
    /// double pushes from the starting rank, diagonal captures, and
    /// en-passant captures, each validated by the legality oracle.
    pub fn generate_pawn_moves(&self, checked: bool) -> (r: Result<Vec<ChessMove>, &'static str>)
        requires
            self.wf(),
        ensures
            r matches Ok(v) && v@ == self.pawn_move_seq(checked),
    {
        let pawn = Piece::new(self.get_current_side(), PieceType::Pawn);
        let positions = match self.get_positions_of_matching_pieces(pawn) {
            Ok(v) => v,
            Err(e) => {
                return Err(e);
            },
        };
        proof {
            self.placement().lemma_matching_positions_valid(pawn);
        }

        let mut moves = self.pawn_single_phase(&positions, checked);
        let mut doubles = self.pawn_double_phase(&positions, checked);
        moves.append(&mut doubles);
        let mut captures_left = self.pawn_capture_phase(&positions, -1, checked);
        moves.append(&mut captures_left);
        let mut captures_right = self.pawn_capture_phase(&positions, 1, checked);
        moves.append(&mut captures_right);
        let mut ep_left = self.pawn_ep_phase(&positions, -1, checked);
        moves.append(&mut ep_left);
        let mut ep_right = self.pawn_ep_phase(&positions, 1, checked);
        moves.append(&mut ep_right);
        Ok(moves)
    }

    /// Recomputes the en-passant target after the given move's pieces have
    /// been relocated: a fresh two-square pawn push leaves its passed-over
    /// square as the target, every other move clears it.
    pub(crate) fn update_en_passant_target(&mut self, chess_move: &ChessMove) -> (r: Result<
        (),
        &'static str,
    >)
        requires
            old(self).wf(),
            (*chess_move matches ChessMove::SimpleMove(from, to) ==> old(
                self,
            ).placement().in_bounds(from) && old(self).placement().in_bounds(to)),
        ensures
            r is Ok,
            final(self).en_passant_target == old(self).ep_update_value(*chess_move),
            final(self).squares@ == old(self).squares@,
            final(self).width == old(self).width,
            final(self).current_move == old(self).current_move,
            final(self).castling_availability@ == old(self).castling_availability@,
            final(self).wf(),
    {
        match *chess_move {
            ChessMove::SimpleMove(from, to) => {
                // The piece has already been moved, so the pushed pawn now
                // stands on `to`.
                let moved_piece = match self.get_piece_at_position(to) {
                    Ok(p) => p,
                    Err(_) => None,
                };
                let is_pawn = match moved_piece {
                    Some(p) => p.piece_type == PieceType::Pawn,
                    None => false,
                };
                let dr: i32 = (to.rank as i32) - (from.rank as i32);
                if is_pawn && (dr == 2 || dr == -2) && from.file == to.file {
                    let mid_rank: u8 = if dr == 2 {
                        from.rank + 1
                    } else {
                        from.rank - 1
                    };
                    let target = Square { rank: mid_rank, file: from.file };
                    proof {
                        let p = old(self).placement();
                        assert(target == Board::push_middle_square(from, to));
                        if dr == 2 {
                            vstd::arithmetic::mul::lemma_mul_inequality(
                                target.rank as int,
                                to.rank as int,
                                p.width,
                            );
                        } else {
                            vstd::arithmetic::mul::lemma_mul_inequality(
                                target.rank as int,
                                from.rank as int,
                                p.width,
                            );
                        }
                        assert(p.in_bounds(target));
                    }
                    self.en_passant_target = Some(target);
                } else {
                    self.en_passant_target = None;
                }
                Ok(())
            },
            _ => {
                self.en_passant_target = None;
                Ok(())
            },
        }
    }
}

} // verus!
