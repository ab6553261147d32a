pub mod implementation;

use vstd::prelude::*;

use crate::board::chess_move::ChessMove;
use crate::board::piece::{PieceType, Side};
use crate::board::square::Square;
use crate::board::Board;

use self::implementation::{get_king_starting_square, get_rook_starting_square};

verus! {

/// The side of the board a castle happens toward.
#[derive(Copy, Clone, Debug, PartialEq, Eq, Structural)]
pub enum CastlingDirection {
    Kingside,
    Queenside,
}

/// The index into [`crate::board::Board::castling_availability`] that holds
/// the flag for one side and direction: black queenside, black kingside,
/// white queenside, white kingside.
pub open spec fn rights_index(side: Side, direction: CastlingDirection) -> int {
    (match side {
        Side::Black => 0int,
        Side::White => 2int,
    }) + (match direction {
        CastlingDirection::Queenside => 0int,
        CastlingDirection::Kingside => 1int,
    })
}

/// The side whose castling flag sits at the given index.
pub open spec fn side_of_rights_index(i: int) -> Side {
    if i < 2 {
        Side::Black
    } else {
        Side::White
    }
}

/// The direction whose castling flag sits at the given index.
pub open spec fn direction_of_rights_index(i: int) -> CastlingDirection {
    if i % 2 == 0 {
        CastlingDirection::Queenside
    } else {
        CastlingDirection::Kingside
    }
}

/// The rank on which the given side's pieces start.
pub open spec fn home_rank(side: Side) -> u8 {
    match side {
        Side::White => 0u8,
        Side::Black => 7u8,
    }
}

/// The square the given side's king starts on.
pub open spec fn king_home_square(side: Side) -> Square {
    Square { file: 4u8, rank: home_rank(side) }
}

/// The home square of the rook that would castle in the given direction.
pub open spec fn rook_home_square(side: Side, dir: CastlingDirection) -> Square {
    Square {
        file: match dir {
            CastlingDirection::Queenside => 0u8,
            CastlingDirection::Kingside => 7u8,
        },
        rank: home_rank(side),
    }
}

/// Where the king lands when castling in the given direction.
pub open spec fn king_target_square(side: Side, dir: CastlingDirection) -> Square {
    Square {
        file: match dir {
            CastlingDirection::Queenside => 2u8,
            CastlingDirection::Kingside => 6u8,
        },
        rank: home_rank(side),
    }
}

/// Where the rook lands when castling in the given direction.
pub open spec fn rook_target_square(side: Side, dir: CastlingDirection) -> Square {
    Square {
        file: match dir {
            CastlingDirection::Queenside => 3u8,
            CastlingDirection::Kingside => 5u8,
        },
        rank: home_rank(side),
    }
}

/// The squares strictly between the king's and the rook's home squares,
/// in the order the castling engine materializes them as trial king
/// positions: outward from the king.
pub open spec fn king_path(side: Side, dir: CastlingDirection) -> Seq<Square> {
    let rank = home_rank(side);
    match dir {
        CastlingDirection::Queenside => seq![
            Square { file: 3u8, rank },
            Square { file: 2u8, rank },
            Square { file: 1u8, rank },
        ],
        CastlingDirection::Kingside => seq![Square { file: 5u8, rank }, Square { file: 6u8, rank }],
    }
}

/// Castling rights are monotone: applying any move never sets a castling
/// flag, so a flag that is set after a move was already set before it.
pub proof fn lemma_castling_rights_monotone(
    pre: Board,
    m: ChessMove,
    post: Board,
    side: Side,
    dir: CastlingDirection,
)
    requires
        crate::board::is_after_move(pre, m, post),
    ensures
        post.spec_right(side, dir) ==> pre.spec_right(side, dir),
{
    assert(post.castling_availability@ == pre.rights_after(m));
}

/// The moment any move leaves the side to move's king-home square, both of
/// that side's castling flags are cleared — whatever piece made the move.
pub proof fn lemma_king_departure_clears_rights(
    pre: Board,
    m: ChessMove,
    post: Board,
    dir: CastlingDirection,
)
    requires
        crate::board::is_after_move(pre, m, post),
        m matches ChessMove::SimpleMove(from, _to) && from == king_home_square(
            pre.current_move,
        ),
    ensures
        !post.spec_right(pre.current_move, dir),
{
    assert(post.castling_availability@ == pre.rights_after(m));
    assert(pre.right_cleared(m, pre.current_move, dir));
}

/// Along any chain of positions linked by applied moves, a castling flag
/// that is clear at one position stays clear at every later one: once a
/// side loses a right it is lost for the remainder of the game.
pub proof fn lemma_rights_stay_cleared(
    chain: Seq<Board>,
    moves: Seq<ChessMove>,
    side: Side,
    dir: CastlingDirection,
    i: int,
    j: int,
)
    requires
        chain.len() == moves.len() + 1,
        forall|k: int|
            0 <= k < moves.len() ==> crate::board::is_after_move(
                #[trigger] chain[k],
                moves[k],
                chain[k + 1],
            ),
        0 <= i <= j < chain.len(),
        !chain[i].spec_right(side, dir),
    ensures
        !chain[j].spec_right(side, dir),
    decreases j - i,
{
    if j > i {
        lemma_rights_stay_cleared(chain, moves, side, dir, i, j - 1);
        lemma_castling_rights_monotone(chain[j - 1], moves[j - 1], chain[j], side, dir);
    }
}

impl Board {
    /// Clears whatever castling flags the given, already relocated, move
    /// forfeits.
    ///
    /// The flags only describe whether king and rook have stayed at home;
    /// a flag that is set while the pieces are elsewhere is caught by the
    /// placement checks when castling is attempted.
    pub(crate) fn update_castling_state(&mut self, chess_move: &ChessMove)
        ensures
            final(self).castling_availability@ == old(self).rights_after(*chess_move),
            final(self).squares@ == old(self).squares@,
            final(self).width == old(self).width,
            final(self).en_passant_target == old(self).en_passant_target,
            final(self).current_move == old(self).current_move,
    {
        let side = self.get_current_side();
        match *chess_move {
            ChessMove::SimpleMove(from, to) => {
                // Anything that leaves the king's home square forfeits both
                // of that side's flags: either the king moved, or the king
                // had already left and the flags were stale.
                if from == get_king_starting_square(side) {
                    self.disable_castling(side, CastlingDirection::Queenside);
                    self.disable_castling(side, CastlingDirection::Kingside);
                }

                // Moving a rook off its home square forfeits that flag.
                if from == get_rook_starting_square(side, CastlingDirection::Queenside) {
                    self.disable_castling(side, CastlingDirection::Queenside);
                } else if from == get_rook_starting_square(side, CastlingDirection::Kingside) {
                    self.disable_castling(side, CastlingDirection::Kingside);
                }

                // Capturing on the opponent's rook-home square forfeits the
                // opponent's flag on that side of the board.
                let opponent = side.flip();
                if to == get_rook_starting_square(opponent, CastlingDirection::Queenside) {
                    self.disable_castling(opponent, CastlingDirection::Queenside);
                } else if to == get_rook_starting_square(opponent, CastlingDirection::Kingside) {
                    self.disable_castling(opponent, CastlingDirection::Kingside);
                }
            },
            // A castle forfeits both flags of the castling side.
            ChessMove::Castling(_) => {
                self.disable_castling(side, CastlingDirection::Queenside);
                self.disable_castling(side, CastlingDirection::Kingside);
            },
            // En passant never starts or ends on a home square, and a null
            // move changes no piece.
            ChessMove::EnPassant(_, _, _) => {},
            ChessMove::NullMove => {},
        }
        proof {
            assert(self.castling_availability@ =~= old(self).rights_after(*chess_move));
        }
    }

    /// The castling moves available to the side to move: nothing when both
    /// flags are gone or the king is currently in check; otherwise each
    /// direction whose trial application succeeds, queenside first.
    pub open spec fn castle_move_seq(self, checked: bool) -> Seq<ChessMove> {
        if !(self.spec_right(self.current_move, CastlingDirection::Queenside) || self.spec_right(
            self.current_move,
            CastlingDirection::Kingside,
        )) {
            Seq::empty()
        } else if self.placement().in_check() {
            Seq::empty()
        } else {
            (if self.move_allowed(ChessMove::Castling(CastlingDirection::Queenside), checked) {
                seq![ChessMove::Castling(CastlingDirection::Queenside)]
            } else {
                Seq::empty()
            }) + (if self.move_allowed(ChessMove::Castling(CastlingDirection::Kingside), checked) {
                seq![ChessMove::Castling(CastlingDirection::Kingside)]
            } else {
                Seq::empty()
            })
        }
    }

    /// Generates the castling moves of the side to move, validating each
    /// candidate by applying it to a disposable copy.
    pub fn generate_castling_moves(&self, checked: bool) -> (r: Result<
        Vec<ChessMove>,
        &'static str,
    >)
        requires
            self.wf(),
            self.spec_right(self.current_move, CastlingDirection::Queenside)
                ==> self.standard_shape(),
            self.spec_right(self.current_move, CastlingDirection::Kingside)
                ==> self.standard_shape(),
        ensures
            r matches Ok(v) && v@ == self.castle_move_seq(checked),
    {
        let mut moves: Vec<ChessMove> = Vec::new();

        if !self.is_any_castling_state_enabled() {
            proof {
                assert(moves@ =~= self.castle_move_seq(checked));
            }
            return Ok(moves);
        }

        let threatened = match self.check_king_threat() {
            Ok(b) => b,
            Err(e) => {
                return Err(e);
            },
        };
        if threatened {
            proof {
                assert(moves@ =~= self.castle_move_seq(checked));
            }
            return Ok(moves);
        }

        match self.trial_move(ChessMove::Castling(CastlingDirection::Queenside), checked) {
            Ok(_) => {
                moves.push(ChessMove::Castling(CastlingDirection::Queenside));
            },
            Err(_) => {},
        }
        match self.trial_move(ChessMove::Castling(CastlingDirection::Kingside), checked) {
            Ok(_) => {
                moves.push(ChessMove::Castling(CastlingDirection::Kingside));
            },
            Err(_) => {},
        }
        proof {
            assert(moves@ =~= self.castle_move_seq(checked));
        }
        Ok(moves)
    }

    /// Castles the side to move in the given direction, in place; rejected
    /// when any castling precondition fails.
    pub(crate) fn castle(&mut self, dir: CastlingDirection, checked: bool) -> (r: Result<
        (),
        &'static str,
    >)
        requires
            old(self).wf(),
            old(self).spec_right(old(self).current_move, dir) ==> old(self).standard_shape(),
        ensures
            r is Ok <==> old(self).spec_can_castle(dir, checked),
            r is Ok ==> final(self).squares@ == old(self).squares_after_relocation(
                ChessMove::Castling(dir),
            ),
            r is Err ==> final(self).squares@ == old(self).squares@,
            final(self).width == old(self).width,
            final(self).en_passant_target == old(self).en_passant_target,
            final(self).current_move == old(self).current_move,
            final(self).castling_availability@ == old(self).castling_availability@,
            r matches Err(e) ==> e@ == "Can't castle"@,
    {
        let allowed = match self.can_castle(dir, checked) {
            Ok(b) => b,
            Err(_) => false,
        };
        if !allowed {
            return Err("Can't castle");
        }

        self.unchecked_castle(dir);
        Ok(())
    }
}

} // verus!
