use vstd::prelude::*;

use crate::board::castling::{
    home_rank, king_home_square, king_path, king_target_square, rights_index, rook_home_square,
    rook_target_square, CastlingDirection,
};
use crate::board::model::Placement;
use crate::board::piece::{Piece, PieceType, Side};
use crate::board::square::Square;
use crate::board::Board;
use crate::board::Offset;

verus! {

/// The index into the castling-rights array for one side and direction.
pub fn calculate_index(side: Side, direction: CastlingDirection) -> (r: usize)
    ensures
        r as int == rights_index(side, direction),
        r < 4,
{
    let side_index: usize = match side {
        Side::Black => 0,
        Side::White => 2,
    };
    let direction_index: usize = match direction {
        CastlingDirection::Queenside => 0,
        CastlingDirection::Kingside => 1,
    };
    side_index + direction_index
}

/// The rank where the pieces of the given side start.
fn get_starting_rank(side: Side) -> (r: u8)
    ensures
        r == home_rank(side),
{
    match side {
        Side::White => 0,
        Side::Black => 7,
    }
}

/// The square where the king of the given side starts.
pub fn get_king_starting_square(side: Side) -> (r: Square)
    ensures
        r == king_home_square(side),
{
    Square { file: 4, rank: get_starting_rank(side) }
}

/// The square where the rook of the given side that would castle in the
/// given direction starts.
pub fn get_rook_starting_square(side: Side, dir: CastlingDirection) -> (r: Square)
    ensures
        r == rook_home_square(side, dir),
{
    let rook_starting_file: u8 = match dir {
        CastlingDirection::Queenside => 0,
        CastlingDirection::Kingside => 7,
    };
    Square { file: rook_starting_file, rank: get_starting_rank(side) }
}

/// The final position of a king of `side` castling in the given direction.
pub fn get_king_end_position(side: Side, dir: CastlingDirection) -> (r: Square)
    ensures
        r == king_target_square(side, dir),
{
    match dir {
        CastlingDirection::Kingside => Square { rank: get_starting_rank(side), file: 6 },
        CastlingDirection::Queenside => Square { rank: get_starting_rank(side), file: 2 },
    }
}

/// The final position of a rook of `side` castling in the given direction.
pub fn get_rook_end_position(side: Side, dir: CastlingDirection) -> (r: Square)
    ensures
        r == rook_target_square(side, dir),
{
    match dir {
        CastlingDirection::Kingside => Square { rank: get_starting_rank(side), file: 5 },
        CastlingDirection::Queenside => Square { rank: get_starting_rank(side), file: 3 },
    }
}

impl Board {
    /// Whether the castling flag for one side and direction is still set.
    pub open spec fn spec_right(self, side: Side, dir: CastlingDirection) -> bool {
        self.castling_availability@[rights_index(side, dir)]
    }

    /// A standard playing field: eight files and eight ranks, as the
    /// castling engine assumes.
    pub open spec fn standard_shape(self) -> bool {
        self.width == 8 && self.squares@.len() == 64
    }

    /// Whether any piece blocks the span between the king's and the rook's
    /// home squares for a castle of the side to move in `dir`: a
    /// non-capturing ray from the king's home square must reach past the
    /// rook-side neighbour squares.
    pub open spec fn spec_blocking(self, dir: CastlingDirection) -> bool {
        let off = match dir {
            CastlingDirection::Kingside => Offset { file: 1i8, rank: 0i8 },
            CastlingDirection::Queenside => Offset { file: -1i8, rank: 0i8 },
        };
        let reachable = self.placement().ray_end(
            king_home_square(self.current_move),
            off,
            false,
        );
        match dir {
            CastlingDirection::Queenside => reachable.file > 1,
            CastlingDirection::Kingside => reachable.file < 6,
        }
    }

    /// The trial arrangement with the side to move's king taken from its
    /// home square and placed on `sq` instead.
    pub open spec fn king_trial_placement(self, sq: Square) -> Placement {
        self.placement().with(
            sq,
            Some(Piece { side: self.current_move, piece_type: PieceType::King }),
        ).with(king_home_square(self.current_move), None)
    }

    /// Whether the side to move may castle in the given direction, in the
    /// order the engine tests it: the flag is set, no piece stands between
    /// king and rook, king and rook are physically on their home squares,
    /// and — only when `checked` — the king is not currently attacked and
    /// would not be attacked on any square strictly between the two home
    /// squares.
    pub open spec fn spec_can_castle(self, dir: CastlingDirection, checked: bool) -> bool {
        let side = self.current_move;
        let p = self.placement();
        &&& self.spec_right(side, dir)
        &&& !self.spec_blocking(dir)
        &&& (p.piece_at(king_home_square(side)) matches Some(pc) && pc.piece_type
            == PieceType::King)
        &&& (p.piece_at(rook_home_square(side, dir)) matches Some(pc) && pc.piece_type
            == PieceType::Rook)
        &&& (checked ==> !p.in_check())
        &&& (checked ==> forall|i: int|
            0 <= i < king_path(side, dir).len() ==> !(#[trigger] self.king_trial_placement(
                king_path(side, dir)[i],
            )).in_check())
    }

    /// Whether the pieces of the given side that would castle in the given
    /// direction are still allowed to: reads the stored flag only.
    pub fn get_castling_state(&self, side: Side, direction: CastlingDirection) -> (r: bool)
        ensures
            r == self.spec_right(side, direction),
    {
        let index = calculate_index(side, direction);
        self.castling_availability[index]
    }

    /// Clears the castling flag for one side and direction.
    pub fn disable_castling(&mut self, side: Side, direction: CastlingDirection)
        ensures
            final(self).castling_availability@ == old(self).castling_availability@.update(
                rights_index(side, direction),
                false,
            ),
            final(self).squares@ == old(self).squares@,
            final(self).width == old(self).width,
            final(self).en_passant_target == old(self).en_passant_target,
            final(self).current_move == old(self).current_move,
    {
        let index = calculate_index(side, direction);
        let a = self.castling_availability;
        self.castling_availability = [
            a[0] && index != 0,
            a[1] && index != 1,
            a[2] && index != 2,
            a[3] && index != 3,
        ];
        proof {
            assert(self.castling_availability@ =~= old(
                self,
            ).castling_availability@.update(rights_index(side, direction), false));
        }
    }

    /// Whether the king of the side to move stands on its home square.
    pub fn is_king_in_starting_position(&self) -> (r: Result<bool, &'static str>)
        requires
            self.wf(),
            self.placement().in_bounds(king_home_square(self.current_move)),
        ensures
            r == Ok::<_, &'static str>(
                self.placement().piece_at(king_home_square(self.current_move)) matches Some(p)
                    && p.piece_type == PieceType::King,
            ),
    {
        let king_piece = match self.get_piece_at_position(
            get_king_starting_square(self.get_current_side()),
        ) {
            Ok(p) => p,
            Err(_) => None,
        };
        match king_piece {
            Some(p) => Ok(p.piece_type == PieceType::King),
            None => Ok(false),
        }
    }

    /// Whether the rook of the side to move that would castle in `dir`
    /// stands on its home square.
    pub fn is_rook_in_starting_position(&self, dir: CastlingDirection) -> (r: Result<
        bool,
        &'static str,
    >)
        requires
            self.wf(),
            self.placement().in_bounds(rook_home_square(self.current_move, dir)),
        ensures
            r == Ok::<_, &'static str>(
                self.placement().piece_at(rook_home_square(self.current_move, dir)) matches Some(
                    p,
                ) && p.piece_type == PieceType::Rook,
            ),
    {
        let rook_piece = match self.get_piece_at_position(
            get_rook_starting_square(self.get_current_side(), dir),
        ) {
            Ok(p) => p,
            Err(_) => None,
        };
        match rook_piece {
            Some(p) => Ok(p.piece_type == PieceType::Rook),
            None => Ok(false),
        }
    }

    /// Whether the side to move may still castle in some direction,
    /// judging by the stored flags alone.
    pub fn is_any_castling_state_enabled(&self) -> (r: bool)
        ensures
            r == (self.spec_right(self.current_move, CastlingDirection::Queenside)
                || self.spec_right(self.current_move, CastlingDirection::Kingside)),
    {
        self.get_castling_state(self.get_current_side(), CastlingDirection::Queenside)
            || self.get_castling_state(self.get_current_side(), CastlingDirection::Kingside)
    }

    /// Whether any piece stands between the king's and the rook's home
    /// squares for a castle of the side to move in `dir`.
    pub fn are_pieces_blocking(&self, dir: CastlingDirection) -> (r: bool)
        requires
            self.wf(),
            self.placement().in_bounds(king_home_square(self.current_move)),
        ensures
            r == self.spec_blocking(dir),
    {
        let king_starting_position = get_king_starting_square(self.get_current_side());

        let offset = match dir {
            CastlingDirection::Kingside => Offset { file: 1, rank: 0 },
            CastlingDirection::Queenside => Offset { file: -1, rank: 0 },
        };

        let reachable_position = self.check_ray_for_pieces(king_starting_position, offset, false);
        match dir {
            CastlingDirection::Queenside => reachable_position.file > 1,
            CastlingDirection::Kingside => reachable_position.file < 6,
        }
    }

    /// The trial boards of the side to move's king standing on each square
    /// strictly between the king's and the rook's home squares, outward
    /// from the king.
    pub fn moving_king_boards(&self, dir: CastlingDirection) -> (r: Result<
        Vec<Board>,
        &'static str,
    >)
        requires
            self.wf(),
            self.standard_shape(),
        ensures
            r matches Ok(v) && v@.len() == king_path(self.current_move, dir).len() && (forall|
                i: int,
            |
                0 <= i < v@.len() ==> {
                    let b = #[trigger] v@[i];
                    &&& b.placement() == self.king_trial_placement(
                        king_path(self.current_move, dir)[i],
                    )
                    &&& b.en_passant_target == self.en_passant_target
                    &&& b.castling_availability@ == self.castling_availability@
                    &&& b.wf()
                }),
    {
        let side = self.get_current_side();
        let king_starting_position = get_king_starting_square(side);
        let rank = get_starting_rank(side);

        let mut files: Vec<u8> = Vec::new();
        match dir {
            CastlingDirection::Queenside => {
                files.push(3);
                files.push(2);
                files.push(1);
            },
            CastlingDirection::Kingside => {
                files.push(5);
                files.push(6);
            },
        }
        proof {
            assert forall|i: int| 0 <= i < files@.len() implies (Square {
                file: files@[i],
                rank: home_rank(side),
            }) == king_path(side, dir)[i] by {}
        }

        let ghost path = king_path(side, dir);
        let mut boards: Vec<Board> = Vec::new();
        let mut i: usize = 0;
        while i < files.len()
            invariant
                self.wf(),
                self.standard_shape(),
                side == self.current_move,
                rank == home_rank(side),
                king_starting_position == king_home_square(side),
                path == king_path(side, dir),
                files@.len() == path.len(),
                forall|j: int|
                    0 <= j < files@.len() ==> (Square { file: files@[j], rank: home_rank(side) })
                        == path[j],
                i <= files@.len(),
                boards@.len() == i,
                forall|j: int|
                    0 <= j < i ==> {
                        let b = #[trigger] boards@[j];
                        &&& b.placement() == self.king_trial_placement(path[j])
                        &&& b.en_passant_target == self.en_passant_target
                        &&& b.castling_availability@ == self.castling_availability@
                        &&& b.wf()
                    },
            decreases files@.len() - i,
        {
            let new_pos = Square { rank, file: files[i] };

            let mut new_board = self.duplicate();

            let _ = new_board.set_piece_at_position(
                Some(Piece::new(side, PieceType::King)),
                new_pos,
            );
            let _ = new_board.set_piece_at_position(None, king_starting_position);
            proof {
                assert(new_board.placement() == self.king_trial_placement(path[i as int]));
            }
            boards.push(new_board);
            i = i + 1;
        }
        Ok(boards)
    }

    /// Relocates king and rook for a castle of the side to move in `dir`,
    /// without checking whether castling is allowed.
    pub fn unchecked_castle(&mut self, dir: CastlingDirection)
        requires
            old(self).wf(),
            old(self).standard_shape(),
        ensures
            final(self).squares@ == old(self).squares@.update(
                old(self).placement().index_of(king_target_square(old(self).current_move, dir)),
                Some(Piece { side: old(self).current_move, piece_type: PieceType::King }),
            ).update(
                old(self).placement().index_of(rook_target_square(old(self).current_move, dir)),
                Some(Piece { side: old(self).current_move, piece_type: PieceType::Rook }),
            ).update(
                old(self).placement().index_of(king_home_square(old(self).current_move)),
                None,
            ).update(
                old(self).placement().index_of(rook_home_square(old(self).current_move, dir)),
                None,
            ),
            final(self).width == old(self).width,
            final(self).en_passant_target == old(self).en_passant_target,
            final(self).current_move == old(self).current_move,
            final(self).castling_availability@ == old(self).castling_availability@,
    {
        let side = self.get_current_side();
        let king_starting_position = get_king_starting_square(side);
        let rook_starting_position = get_rook_starting_square(side, dir);

        let rook_new_position = get_rook_end_position(side, dir);
        let king_new_position = get_king_end_position(side, dir);

        let _ = self.set_piece_at_position(
            Some(Piece::new(side, PieceType::King)),
            king_new_position,
        );
        let _ = self.set_piece_at_position(
            Some(Piece::new(side, PieceType::Rook)),
            rook_new_position,
        );
        let _ = self.set_piece_at_position(None, king_starting_position);
        let _ = self.set_piece_at_position(None, rook_starting_position);
    }

    /// Performs the full castling-legality check for the side to move:
    /// stored flag, blocking pieces, piece placement, and — when `checked`
    /// — that the king is not castling out of check and is safe on every
    /// square it would cross.
    pub fn can_castle(&self, dir: CastlingDirection, checked: bool) -> (r: Result<
        bool,
        &'static str,
    >)
        requires
            self.wf(),
            self.spec_right(self.current_move, dir) ==> self.standard_shape(),
        ensures
            r == Ok::<_, &'static str>(self.spec_can_castle(dir, checked)),
    {
        if !self.get_castling_state(self.get_current_side(), dir) {
            return Ok(false);
        }
        if self.are_pieces_blocking(dir) {
            return Ok(false);
        }
        let king_ok = match self.is_king_in_starting_position() {
            Ok(b) => b,
            Err(e) => {
                return Err(e);
            },
        };
        let rook_ok = match self.is_rook_in_starting_position(dir) {
            Ok(b) => b,
            Err(e) => {
                return Err(e);
            },
        };
        if !king_ok || !rook_ok {
            return Ok(false);
        }
        if !checked {
            return Ok(true);
        }

        // A king may not castle out of check.
        let threatened_now = match self.check_king_threat() {
            Ok(b) => b,
            Err(e) => {
                return Err(e);
            },
        };
        if threatened_now {
            return Ok(false);
        }

        let boards = match self.moving_king_boards(dir) {
            Ok(v) => v,
            Err(e) => {
                return Err(e);
            },
        };

        let ghost path = king_path(self.current_move, dir);
        let mut i: usize = 0;
        while i < boards.len()
            invariant
                self.wf(),
                path == king_path(self.current_move, dir),
                boards@.len() == path.len(),
                forall|j: int|
                    0 <= j < boards@.len() ==> {
                        let b = #[trigger] boards@[j];
                        &&& b.placement() == self.king_trial_placement(path[j])
                        &&& b.wf()
                    },
                i <= boards@.len(),
                checked,
                self.spec_right(self.current_move, dir) ==> self.standard_shape(),
                forall|j: int|
                    0 <= j < i ==> !(#[trigger] self.king_trial_placement(path[j])).in_check(),
            decreases boards@.len() - i,
        {
            let threatened = match boards[i].check_king_threat() {
                Ok(b) => b,
                Err(e) => {
                    return Err(e);
                },
            };
            if threatened {
                proof {
                    assert(self.king_trial_placement(path[i as int]).in_check());
                    assert(!self.spec_can_castle(dir, checked));
                }
                return Ok(false);
            }
            i = i + 1;
        }
        Ok(true)
    }
}

} // verus!
