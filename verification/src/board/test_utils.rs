use vstd::prelude::*;

use crate::board::piece::{Piece, PieceType, Side};
use crate::board::square::Square;
use crate::board::Board;

verus! {

/// Whether some board in the list holds the given piece on the given square.
fn any_board_has(boards: &Vec<Board>, square: Square, piece: Piece) -> (r: bool)
    requires
        forall|j: int| 0 <= j < boards@.len() ==> (#[trigger] boards@[j]).wf(),
        forall|j: int|
            0 <= j < boards@.len() ==> (#[trigger] boards@[j]).placement().in_bounds(square),
    ensures
        r == exists|j: int|
            0 <= j < boards@.len() && (#[trigger] boards@[j]).placement().piece_at(square)
                == Some(piece),
{
    let mut j: usize = 0;
    while j < boards.len()
        invariant
            forall|k: int| 0 <= k < boards@.len() ==> (#[trigger] boards@[k]).wf(),
            forall|k: int|
                0 <= k < boards@.len() ==> (#[trigger] boards@[k]).placement().in_bounds(square),
            j <= boards@.len(),
            forall|k: int|
                0 <= k < j ==> (#[trigger] boards@[k]).placement().piece_at(square) != Some(
                    piece,
                ),
        decreases boards@.len() - j,
    {
        let found = match boards[j].get_piece_at_position(square) {
            Ok(Some(p)) => p == piece,
            _ => false,
        };
        if found {
            return true;
        }
        j = j + 1;
    }
    false
}

/// Whether the given boards show the piece on every expected square in
/// some board, and on none of the unexpected squares in any board. This
/// is how the movement tests judge a generated set of moved boards.
pub fn check_for_moves(
    boards: Vec<Board>,
    expected_moves: Vec<Square>,
    unexpected_moves: Vec<Square>,
    piece: Piece,
) -> (r: bool)
    requires
        forall|j: int| 0 <= j < boards@.len() ==> (#[trigger] boards@[j]).wf(),
        forall|i: int, j: int|
            0 <= i < expected_moves@.len() && 0 <= j < boards@.len() ==> (
            #[trigger] boards@[j]).placement().in_bounds(#[trigger] expected_moves@[i]),
        forall|i: int, j: int|
            0 <= i < unexpected_moves@.len() && 0 <= j < boards@.len() ==> (
            #[trigger] boards@[j]).placement().in_bounds(#[trigger] unexpected_moves@[i]),
    ensures
        r == ((forall|i: int|
            0 <= i < expected_moves@.len() ==> exists|j: int|
                0 <= j < boards@.len() && (#[trigger] boards@[j]).placement().piece_at(
                    #[trigger] expected_moves@[i],
                ) == Some(piece)) && (forall|i: int|
            0 <= i < unexpected_moves@.len() ==> !exists|j: int|
                0 <= j < boards@.len() && (#[trigger] boards@[j]).placement().piece_at(
                    #[trigger] unexpected_moves@[i],
                ) == Some(piece))),
{
    let mut i: usize = 0;
    while i < expected_moves.len()
        invariant
            forall|j: int| 0 <= j < boards@.len() ==> (#[trigger] boards@[j]).wf(),
            forall|k: int, j: int|
                0 <= k < expected_moves@.len() && 0 <= j < boards@.len() ==> (
                #[trigger] boards@[j]).placement().in_bounds(#[trigger] expected_moves@[k]),
            i <= expected_moves@.len(),
            forall|k: int|
                0 <= k < i ==> exists|j: int|
                    0 <= j < boards@.len() && (#[trigger] boards@[j]).placement().piece_at(
                        #[trigger] expected_moves@[k],
                    ) == Some(piece),
        decreases expected_moves@.len() - i,
    {
        if !any_board_has(&boards, expected_moves[i], piece) {
            return false;
        }
        i = i + 1;
    }

    let mut i: usize = 0;
    while i < unexpected_moves.len()
        invariant
            forall|j: int| 0 <= j < boards@.len() ==> (#[trigger] boards@[j]).wf(),
            forall|k: int, j: int|
                0 <= k < unexpected_moves@.len() && 0 <= j < boards@.len() ==> (
                #[trigger] boards@[j]).placement().in_bounds(#[trigger] unexpected_moves@[k]),
            forall|k: int|
                0 <= k < expected_moves@.len() ==> exists|j: int|
                    0 <= j < boards@.len() && (#[trigger] boards@[j]).placement().piece_at(
                        #[trigger] expected_moves@[k],
                    ) == Some(piece),
            i <= unexpected_moves@.len(),
            forall|k: int|
                0 <= k < i ==> !exists|j: int|
                    0 <= j < boards@.len() && (#[trigger] boards@[j]).placement().piece_at(
                        #[trigger] unexpected_moves@[k],
                    ) == Some(piece),
        decreases unexpected_moves@.len() - i,
    {
        if any_board_has(&boards, unexpected_moves[i], piece) {
            return false;
        }
        i = i + 1;
    }
    true
}

/// The contents of the sliding-piece test board at one linear index: a
/// white piece of the chosen kind on two central squares, white pawns on
/// three squares, black pawns on three more, everything else empty.
pub open spec fn straight_test_piece(piece_type: PieceType, i: int) -> Option<Piece> {
    if i == 20 || i == 34 {
        Some(Piece { side: Side::White, piece_type })
    } else if i == 21 || i == 25 || i == 47 {
        Some(Piece { side: Side::White, piece_type: PieceType::Pawn })
    } else if i == 10 || i == 50 || i == 52 {
        Some(Piece { side: Side::Black, piece_type: PieceType::Pawn })
    } else {
        None
    }
}

/// A standard-sized board exercising a sliding piece: the chosen kind on
/// two central squares among a handful of friendly and opposing pawns.
pub fn get_board_for_simple_straight_moves(piece_type: PieceType) -> (b: Board)
    ensures
        b.wf(),
        b.width == 8,
        b.squares@.len() == 64,
        b.current_move == Side::White,
        b.en_passant_target is None,
        b.castling_availability@ == seq![false, false, false, false],
        forall|i: int| 0 <= i < 64 ==> b.squares@[i] == straight_test_piece(piece_type, i),
{
    let mut pieces: Vec<Option<Piece>> = Vec::new();
    let mut i: usize = 0;
    while i < 64
        invariant
            i <= 64,
            pieces@.len() == i,
            forall|j: int| 0 <= j < i ==> pieces@[j] is None,
        decreases 64 - i,
    {
        pieces.push(None);
        i = i + 1;
    }
    let mut board = Board::with_pieces(pieces, 8);

    let _ = board.set_piece_at_position(
        Some(Piece::new(Side::White, piece_type)),
        Square { rank: 2, file: 4 },
    );
    let _ = board.set_piece_at_position(
        Some(Piece::new(Side::White, piece_type)),
        Square { rank: 4, file: 2 },
    );
    let _ = board.set_piece_at_position(
        Some(Piece::new(Side::White, PieceType::Pawn)),
        Square { rank: 2, file: 5 },
    );
    let _ = board.set_piece_at_position(
        Some(Piece::new(Side::White, PieceType::Pawn)),
        Square { rank: 3, file: 1 },
    );
    let _ = board.set_piece_at_position(
        Some(Piece::new(Side::White, PieceType::Pawn)),
        Square { rank: 5, file: 7 },
    );
    let _ = board.set_piece_at_position(
        Some(Piece::new(Side::Black, PieceType::Pawn)),
        Square { rank: 1, file: 2 },
    );
    let _ = board.set_piece_at_position(
        Some(Piece::new(Side::Black, PieceType::Pawn)),
        Square { rank: 6, file: 2 },
    );
    let _ = board.set_piece_at_position(
        Some(Piece::new(Side::Black, PieceType::Pawn)),
        Square { rank: 6, file: 4 },
    );
    board
}

} // verus!
