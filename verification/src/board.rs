pub mod castling;
pub mod chess_move;
pub mod errors;
pub mod game;
pub mod model;
pub mod piece;
pub mod square;
pub mod test_utils;

mod bishop;
mod king;
mod knight;
mod pawn;
mod queen;
mod rook;
mod straight_moving_piece;

use vstd::prelude::*;

use crate::board::castling::CastlingDirection;
use crate::board::chess_move::ChessMove;
use crate::board::game::ChessResult;
use crate::board::errors::{InvalidOffsetError, InvalidSquareError, Orientation};
use crate::board::model::Placement;
use crate::board::piece::{Piece, PieceType, Side};
use crate::board::square::{Square, UncheckedSquare};

verus! {

/// An offset on the board: a signed (file, rank) delta used for ray casting
/// and fixed-pattern jumps.
///
/// File counts from the left, rank from the bottom.
#[derive(Copy, Clone, Debug, PartialEq, Eq, Structural)]
pub struct Offset {
    pub file: i8,
    pub rank: i8,
}

/// A chess position.
///
/// `squares` lists the board in rank-major order: the index of a square is
/// `rank * width + file`, with rank 0 as the bottom row. On a typical board
/// the vector has length 64; other widths are supported for testing.
#[derive(Clone, Debug)]
pub struct Board {
    /// The contents of each square, in rank-major order.
    pub squares: Vec<Option<Piece>>,
    /// The number of files on the board; the height is `squares.len() / width`.
    pub width: u8,
    /// Set only immediately after a two-square pawn push; cleared by every
    /// other move.
    pub en_passant_target: Option<Square>,
    /// Which side has to make a move next.
    pub current_move: Side,
    /// Which side may still castle where, stored as black queenside, black
    /// kingside, white queenside, white kingside. Once a flag is cleared it
    /// is never set again.
    pub castling_availability: [bool; 4],
}

/// The knight's eight jump offsets, in generation order.
pub(crate) fn knight_offset_list() -> (r: Vec<Offset>)
    ensures
        r@ == model::knight_jumps(),
{
    let mut v: Vec<Offset> = Vec::new();
    v.push(Offset { file: -1, rank: 2 });
    v.push(Offset { file: 1, rank: 2 });
    v.push(Offset { file: -2, rank: 1 });
    v.push(Offset { file: 2, rank: 1 });
    v.push(Offset { file: -2, rank: -1 });
    v.push(Offset { file: 2, rank: -1 });
    v.push(Offset { file: -1, rank: -2 });
    v.push(Offset { file: 1, rank: -2 });
    proof {
        assert(v@ =~= model::knight_jumps());
    }
    v
}

/// The king's eight unit steps, in generation order.
pub(crate) fn king_step_offset_list() -> (r: Vec<Offset>)
    ensures
        r@ == model::king_steps(),
{
    let mut v: Vec<Offset> = Vec::new();
    v.push(Offset { file: 0, rank: 1 });
    v.push(Offset { file: 1, rank: 0 });
    v.push(Offset { file: 0, rank: -1 });
    v.push(Offset { file: -1, rank: 0 });
    v.push(Offset { file: 1, rank: 1 });
    v.push(Offset { file: 1, rank: -1 });
    v.push(Offset { file: -1, rank: 1 });
    v.push(Offset { file: -1, rank: -1 });
    proof {
        assert(v@ =~= model::king_steps());
    }
    v
}

/// The four orthogonal ray directions.
pub(crate) fn rook_offset_list() -> (r: Vec<Offset>)
    ensures
        r@ == model::rook_dirs(),
{
    let mut v: Vec<Offset> = Vec::new();
    v.push(Offset { file: 0, rank: 1 });
    v.push(Offset { file: 1, rank: 0 });
    v.push(Offset { file: 0, rank: -1 });
    v.push(Offset { file: -1, rank: 0 });
    proof {
        assert(v@ =~= model::rook_dirs());
    }
    v
}

/// The four diagonal ray directions.
pub(crate) fn bishop_offset_list() -> (r: Vec<Offset>)
    ensures
        r@ == model::bishop_dirs(),
{
    let mut v: Vec<Offset> = Vec::new();
    v.push(Offset { file: 1, rank: 1 });
    v.push(Offset { file: 1, rank: -1 });
    v.push(Offset { file: -1, rank: 1 });
    v.push(Offset { file: -1, rank: -1 });
    proof {
        assert(v@ =~= model::bishop_dirs());
    }
    v
}

/// The eight queen ray directions: orthogonal first, then diagonal.
pub(crate) fn queen_offset_list() -> (r: Vec<Offset>)
    ensures
        r@ == model::queen_dirs(),
{
    let mut v: Vec<Offset> = Vec::new();
    v.push(Offset { file: 0, rank: 1 });
    v.push(Offset { file: 1, rank: 0 });
    v.push(Offset { file: 0, rank: -1 });
    v.push(Offset { file: -1, rank: 0 });
    v.push(Offset { file: 1, rank: 1 });
    v.push(Offset { file: 1, rank: -1 });
    v.push(Offset { file: -1, rank: 1 });
    v.push(Offset { file: -1, rank: -1 });
    proof {
        assert(v@ =~= model::queen_dirs());
    }
    v
}

/// The two offsets from a king toward squares a pawn of `attacker` would
/// give check from.
pub(crate) fn pawn_checker_offset_list(attacker: Side) -> (r: Vec<Offset>)
    ensures
        r@ == model::pawn_checker_offsets(attacker),
{
    let d: i8 = match attacker {
        Side::White => -1,
        Side::Black => 1,
    };
    let mut v: Vec<Offset> = Vec::new();
    v.push(Offset { file: 1, rank: d });
    v.push(Offset { file: -1, rank: d });
    proof {
        assert(v@ =~= model::pawn_checker_offsets(attacker));
    }
    v
}

/// The index of the first newline at or after `start`, or the end of the
/// text when no newline remains.
pub open spec fn line_break(s: Seq<char>, start: int) -> int
    decreases s.len() - start,
        when 0 <= start <= s.len()
{
    if start >= s.len() {
        start
    } else if s[start] == '\n' {
        start
    } else {
        line_break(s, start + 1)
    }
}

/// What `line_break` finds: the nearest newline, with none before it.
pub proof fn lemma_line_break(s: Seq<char>, start: int)
    requires
        0 <= start <= s.len(),
    ensures
        start <= line_break(s, start) <= s.len(),
        line_break(s, start) < s.len() ==> s[line_break(s, start)] == '\n',
        forall|m: int| start <= m < line_break(s, start) ==> s[m] != '\n',
    decreases s.len() - start,
{
    if start < s.len() && s[start] != '\n' {
        lemma_line_break(s, start + 1);
    }
}

/// The text split at newlines, from `start` on; a trailing newline yields
/// no extra empty line, as diagram import expects.
pub open spec fn split_lines_from(s: Seq<char>, start: int) -> Seq<Seq<char>>
    decreases s.len() - start,
        when 0 <= start <= s.len()
        via split_lines_from_decreases
{
    if start >= s.len() {
        Seq::empty()
    } else {
        let end = line_break(s, start);
        if end >= s.len() {
            seq![s.subrange(start, s.len() as int)]
        } else {
            seq![s.subrange(start, end)] + split_lines_from(s, end + 1)
        }
    }
}

#[via_fn]
proof fn split_lines_from_decreases(s: Seq<char>, start: int) {
    if 0 <= start <= s.len() {
        lemma_line_break(s, start);
    }
}

/// The rows of a board diagram: its text split at newlines.
pub open spec fn art_rows(s: Seq<char>) -> Seq<Seq<char>> {
    split_lines_from(s, 0)
}

/// Whether a diagram can become a board: at least one row, few enough
/// rows that every rank number is representable, a width that fits the
/// board's width field, and the same width on every row.
pub open spec fn art_ok(s: Seq<char>) -> bool {
    let rows = art_rows(s);
    &&& 1 <= rows.len() <= 256
    &&& 1 <= rows[0].len() <= 255
    &&& forall|i: int| 0 <= i < rows.len() ==> (#[trigger] rows[i]).len() == rows[0].len()
}

/// One diagram row decoded into square contents.
pub open spec fn piece_row(cs: Seq<char>) -> Seq<Option<Piece>> {
    Seq::new(cs.len(), |j: int| Piece::spec_of_char(cs[j]))
}

/// A rank-major linear index, as a named term for quantified statements.
pub open spec fn flat_index(rank: int, width: int, file: int) -> int {
    rank * width + file
}

/// The first `k` board ranks a diagram yields, flattened bottom-up: rank
/// `r` comes from the diagram row `r` rows above the last one.
pub open spec fn rows_flattened(crows: Seq<Seq<char>>, k: int) -> Seq<Option<Piece>>
    decreases k,
{
    if k <= 0 {
        Seq::empty()
    } else {
        rows_flattened(crows, k - 1) + piece_row(crows[crows.len() - k])
    }
}

/// The length of a flattening of equal-width rows.
pub proof fn lemma_rows_flattened_len(crows: Seq<Seq<char>>, k: int, width: int)
    requires
        0 <= k <= crows.len(),
        forall|i: int| 0 <= i < crows.len() ==> (#[trigger] crows[i]).len() == width,
    ensures
        rows_flattened(crows, k).len() == k * width,
    decreases k,
{
    if k > 0 {
        lemma_rows_flattened_len(crows, k - 1, width);
        assert(crows[crows.len() - k].len() == width);
        assert(k * width == (k - 1) * width + width) by (nonlinear_arith);
    } else {
        assert(k * width == 0) by (nonlinear_arith)
            requires
                k == 0,
        ;
    }
}

/// What a flattening holds at each rank-major index.
pub proof fn lemma_rows_flattened_index(
    crows: Seq<Seq<char>>,
    k: int,
    width: int,
    r: int,
    f: int,
)
    requires
        0 <= k <= crows.len(),
        forall|i: int| 0 <= i < crows.len() ==> (#[trigger] crows[i]).len() == width,
        0 <= r < k,
        0 <= f < width,
    ensures
        rows_flattened(crows, k)[flat_index(r, width, f)] == Piece::spec_of_char(
            crows[crows.len() - 1 - r][f],
        ),
    decreases k,
{
    lemma_rows_flattened_len(crows, k - 1, width);
    if r == k - 1 {
        assert(rows_flattened(crows, k)[flat_index(r, width, f)] == piece_row(
            crows[crows.len() - k],
        )[f]);
    } else {
        lemma_rows_flattened_index(crows, k - 1, width, r, f);
        assert((r + 1) * width <= (k - 1) * width) by (nonlinear_arith)
            requires
                0 <= r,
                r + 1 <= k - 1,
                0 <= width,
        ;
        assert((r + 1) * width == r * width + width) by (nonlinear_arith);
    }
}

/// Whether `post` is exactly the position that applying `m` to `pre`
/// produces: pieces relocated, the en-passant target recomputed, castling
/// flags updated, and the side to move flipped.
pub open spec fn is_after_move(pre: Board, m: ChessMove, post: Board) -> bool {
    &&& post.squares@ == pre.squares_after_relocation(m)
    &&& post.width == pre.width
    &&& post.en_passant_target == pre.ep_after(m)
    &&& post.castling_availability@ == pre.rights_after(m)
    &&& post.current_move == pre.current_move.opposite()
}

/// Two boards that agree on every observable component are judged alike by
/// every specification the move-application layer states.
pub proof fn lemma_same_position_move_specs(a: Board, b: Board, m: ChessMove, checked: bool)
    requires
        a.same_position(b),
    ensures
        a.wf() == b.wf(),
        a.move_squares_ok(m) == b.move_squares_ok(m),
        a.relocation_ok(m, checked) == b.relocation_ok(m, checked),
        a.move_allowed(m, checked) == b.move_allowed(m, checked),
        a.squares_after_relocation(m) == b.squares_after_relocation(m),
        a.mid_placement(m) == b.mid_placement(m),
        a.ep_after(m) == b.ep_after(m),
        a.rights_after(m) == b.rights_after(m),
        a.current_move == b.current_move,
{
    assert(a.placement() == b.placement());
    assert forall|sq: Square| #[trigger] a.king_trial_placement(sq) == b.king_trial_placement(
        sq,
    ) by {}
    match m {
        ChessMove::Castling(dir) => {
            let side = a.current_move;
            let path = castling::king_path(side, dir);
            if checked {
                if forall|i: int|
                    0 <= i < path.len() ==> !(#[trigger] a.king_trial_placement(
                        path[i],
                    )).in_check() {
                    assert forall|i: int| 0 <= i < path.len() implies !(
                    #[trigger] b.king_trial_placement(path[i])).in_check() by {
                        assert(!a.king_trial_placement(path[i]).in_check());
                    }
                } else {
                    let i = choose|i: int|
                        0 <= i < path.len() && (#[trigger] a.king_trial_placement(
                            path[i],
                        )).in_check();
                    assert(b.king_trial_placement(path[i]).in_check());
                }
            }
            assert(a.spec_can_castle(dir, checked) == b.spec_can_castle(dir, checked));
        },
        _ => {},
    }
    assert(a.squares_after_relocation(m) == b.squares_after_relocation(m));
    assert(a.rights_after(m) =~= b.rights_after(m));
}

/// Computes the rank-major linear index of a coordinate.
pub(crate) fn linear_index(rank: u8, file: u8, width: u8) -> (r: usize)
    ensures
        r == rank as int * width as int + file as int,
{
    proof {
        vstd::arithmetic::mul::lemma_mul_upper_bound(rank as int, 255, width as int, 255);
    }
    (rank as usize) * (width as usize) + (file as usize)
}

impl Board {
    /// The mathematical model of this board's arrangement.
    pub open spec fn placement(self) -> Placement {
        Placement {
            squares: self.squares@,
            width: self.width as int,
            turn: self.current_move,
        }
    }

    /// A well-formed board: whole ranks, every rank number representable,
    /// and an en-passant target (if any) that lies on the board.
    pub open spec fn wf(self) -> bool {
        &&& self.placement().wf()
        &&& (self.en_passant_target matches Some(t) ==> self.placement().in_bounds(t))
    }

    /// Whether this board and `other` agree on every observable component.
    pub open spec fn same_position(self, other: Board) -> bool {
        &&& self.squares@ == other.squares@
        &&& self.width == other.width
        &&& self.en_passant_target == other.en_passant_target
        &&& self.current_move == other.current_move
        &&& self.castling_availability@ == other.castling_availability@
    }

    /// The piece the standard starting position holds at linear index `i`.
    pub open spec fn starting_piece_at(i: int) -> Option<Piece> {
        let rank = i / 8;
        let file = i % 8;
        if rank == 0 {
            Some(Piece { side: Side::White, piece_type: Board::back_rank_kind(file) })
        } else if rank == 1 {
            Some(Piece { side: Side::White, piece_type: PieceType::Pawn })
        } else if rank == 6 {
            Some(Piece { side: Side::Black, piece_type: PieceType::Pawn })
        } else if rank == 7 {
            Some(Piece { side: Side::Black, piece_type: Board::back_rank_kind(file) })
        } else {
            None
        }
    }

    /// The piece kind that starts on the back rank at the given file.
    pub open spec fn back_rank_kind(file: int) -> PieceType {
        if file == 0 || file == 7 {
            PieceType::Rook
        } else if file == 1 || file == 6 {
            PieceType::Knight
        } else if file == 2 || file == 5 {
            PieceType::Bishop
        } else if file == 3 {
            PieceType::Queen
        } else {
            PieceType::King
        }
    }

    /// Constructs the standard starting position: White to move, all four
    /// castling rights set, no en-passant target.
    pub fn default() -> (r: Board)
        ensures
            r.width == 8,
            r.squares@.len() == 64,
            forall|i: int| 0 <= i < 64 ==> r.squares@[i] == Board::starting_piece_at(i),
            r.en_passant_target is None,
            r.current_move == Side::White,
            r.castling_availability@ == seq![true, true, true, true],
            r.wf(),
    {
        let mut squares: Vec<Option<Piece>> = Vec::new();
        let mut i: usize = 0;
        while i < 64
            invariant
                i <= 64,
                squares@.len() == i,
                forall|j: int| 0 <= j < i ==> squares@[j] == Board::starting_piece_at(j),
            decreases 64 - i,
        {
            squares.push(Board::starting_square_piece(i));
            i = i + 1;
        }
        let board = Board {
            squares,
            width: 8,
            en_passant_target: None,
            current_move: Side::White,
            castling_availability: [true, true, true, true],
        };
        proof {
            assert(board.castling_availability@ =~= seq![true, true, true, true]);
            assert(board.placement().wf()) by {
                assert(board.squares@.len() as int % (board.width as int) == 0);
            }
        }
        board
    }

    /// The starting-position piece for one linear index.
    fn starting_square_piece(i: usize) -> (r: Option<Piece>)
        requires
            i < 64,
        ensures
            r == Board::starting_piece_at(i as int),
    {
        let rank = i / 8;
        let file = i % 8;
        if rank == 0 {
            Some(Piece { side: Side::White, piece_type: Board::back_rank_kind_at(file) })
        } else if rank == 1 {
            Some(Piece { side: Side::White, piece_type: PieceType::Pawn })
        } else if rank == 6 {
            Some(Piece { side: Side::Black, piece_type: PieceType::Pawn })
        } else if rank == 7 {
            Some(Piece { side: Side::Black, piece_type: Board::back_rank_kind_at(file) })
        } else {
            None
        }
    }

    /// The back-rank piece kind for one file.
    fn back_rank_kind_at(file: usize) -> (r: PieceType)
        ensures
            r == Board::back_rank_kind(file as int),
    {
        if file == 0 || file == 7 {
            PieceType::Rook
        } else if file == 1 || file == 6 {
            PieceType::Knight
        } else if file == 2 || file == 5 {
            PieceType::Bishop
        } else if file == 3 {
            PieceType::Queen
        } else {
            PieceType::King
        }
    }

    /// Builds a board from a rank-major ASCII diagram: one character per
    /// square, rows separated by newlines, the top row being the highest
    /// rank. Pieces use the letters of [`Piece::from_char`]; any other
    /// character leaves its square empty.
    ///
    /// An imported position starts with White to move and all castling
    /// rights withdrawn, since rights cannot be inferred from the diagram
    /// alone. A diagram with no rows, ragged rows, or a shape no board can
    /// hold is rejected and no partial state is produced.
    pub fn from_art(art: &str) -> (r: Result<Board, &'static str>)
        ensures
            r is Ok <==> art_ok(art@),
            r matches Ok(b) ==> ({
                let rows = art_rows(art@);
                &&& b.width as int == rows[0].len()
                &&& b.squares@.len() == rows.len() * rows[0].len()
                &&& (forall|rk: int, f: int|
                    0 <= rk < rows.len() && 0 <= f < rows[0].len() ==> #[trigger] b.placement().piece_at(
                        Square { rank: rk as u8, file: f as u8 },
                    ) == Piece::spec_of_char(rows[rows.len() - 1 - rk][f]))
                &&& b.en_passant_target is None
                &&& b.current_move == Side::White
                &&& b.castling_availability@ == seq![false, false, false, false]
                &&& b.wf()
            }),
    {
        let n = art.unicode_len();
        let ghost s = art@;
        let ghost srows = art_rows(s);

        let mut rows: Vec<Vec<Option<Piece>>> = Vec::new();
        let ghost mut crows: Seq<Seq<char>> = Seq::empty();
        proof {
            assert(Seq::<Seq<char>>::empty() + split_lines_from(s, 0) =~= split_lines_from(s, 0));
        }
        let mut start: usize = 0;
        while start < n
            invariant
                s == art@,
                n == s.len(),
                srows == art_rows(s),
                start <= n + 1,
                rows@.len() == crows.len(),
                forall|k: int| 0 <= k < crows.len() ==> rows@[k]@ == piece_row(#[trigger] crows[k]),
                (start <= n && srows == crows + split_lines_from(s, start as int)) || (start == n
                    + 1 && srows == crows),
            decreases n + 1 - start,
        {
            let mut end: usize = start;
            while end < n && art.get_char(end) != '\n'
                invariant
                    s == art@,
                    n == s.len(),
                    start <= end <= n,
                    forall|m: int| start <= m < end ==> s[m] != '\n',
                decreases n - end,
            {
                end = end + 1;
            }
            proof {
                lemma_line_break(s, start as int);
                let lb = line_break(s, start as int);
                if lb < end {
                    assert(s[lb] == '\n');
                    assert(false);
                }
                if lb > end as int {
                    assert(s[end as int] != '\n');
                    assert(end < n);
                    assert(false);
                }
            }

            let mut row: Vec<Option<Piece>> = Vec::new();
            let mut k: usize = start;
            while k < end
                invariant
                    s == art@,
                    n == s.len(),
                    start <= k <= end <= n,
                    row@.len() == k - start,
                    forall|j: int|
                        0 <= j < row@.len() ==> row@[j] == Piece::spec_of_char(
                            #[trigger] s[start + j],
                        ),
                decreases end - k,
            {
                row.push(Piece::from_char(art.get_char(k)));
                k = k + 1;
            }
            proof {
                let sub = s.subrange(start as int, end as int);
                assert forall|j: int| 0 <= j < row@.len() implies row@[j] == piece_row(sub)[j] by {
                    assert(row@[j] == Piece::spec_of_char(s[start + j]));
                    assert(sub[j] == s[start + j]);
                }
                assert(row@ =~= piece_row(sub));
            }
            rows.push(row);
            proof {
                crows = crows.push(s.subrange(start as int, end as int));
                if end == n {
                    assert(split_lines_from(s, start as int) =~= seq![
                        s.subrange(start as int, n as int),
                    ]);
                    assert(srows =~= crows);
                } else {
                    assert(split_lines_from(s, start as int) =~= seq![
                        s.subrange(start as int, end as int),
                    ] + split_lines_from(s, end + 1));
                    assert(srows =~= crows + split_lines_from(s, end + 1));
                }
            }
            if end < n {
                start = end + 1;
            } else {
                proof {
                    assert(split_lines_from(s, n as int) =~= Seq::<Seq<char>>::empty());
                    assert(crows + split_lines_from(s, n as int) =~= crows);
                }
                start = n;
            }
        }
        proof {
            if start == n {
                assert(split_lines_from(s, n as int) =~= Seq::<Seq<char>>::empty());
                assert(crows + split_lines_from(s, n as int) =~= crows);
            }
            assert(srows == crows);
        }

        if rows.len() == 0 {
            return Err("Can't create board with no height");
        }
        if rows.len() > 256 {
            return Err("Can't create board with more ranks than fit");
        }
        let width = rows[0].len();
        if width == 0 {
            return Err("Can't create board with no width");
        }
        if width > 255 {
            return Err("Can't create board with more files than fit");
        }
        let mut i: usize = 1;
        while i < rows.len()
            invariant
                s == art@,
                srows == art_rows(s),
                srows == crows,
                rows@.len() == crows.len(),
                forall|k: int| 0 <= k < crows.len() ==> rows@[k]@ == piece_row(#[trigger] crows[k]),
                rows@.len() >= 1,
                width == crows[0].len(),
                1 <= i <= rows@.len(),
                forall|k: int| 0 <= k < i ==> (#[trigger] crows[k]).len() == width,
            decreases rows@.len() - i,
        {
            if rows[i].len() != width {
                proof {
                    assert(rows@[i as int]@.len() == piece_row(crows[i as int]).len());
                    assert(srows[i as int].len() != srows[0].len());
                    assert(!art_ok(s));
                }
                return Err("Can't create board with ragged rows");
            }
            i = i + 1;
        }

        let height = rows.len();
        let mut squares: Vec<Option<Piece>> = Vec::new();
        let mut rk: usize = 0;
        while rk < height
            invariant
                srows == crows,
                rows@.len() == crows.len(),
                forall|k: int| 0 <= k < crows.len() ==> rows@[k]@ == piece_row(#[trigger] crows[k]),
                forall|k: int| 0 <= k < crows.len() ==> (#[trigger] crows[k]).len() == width,
                height == rows@.len(),
                1 <= height <= 256,
                1 <= width <= 255,
                rk <= height,
                squares@ == rows_flattened(crows, rk as int),
            decreases height - rk,
        {
            let source_row = height - 1 - rk;
            let ghost source = piece_row(crows[source_row as int]);
            let mut f: usize = 0;
            while f < width
                invariant
                    srows == crows,
                    rows@.len() == crows.len(),
                    forall|k: int|
                        0 <= k < crows.len() ==> rows@[k]@ == piece_row(#[trigger] crows[k]),
                    forall|k: int| 0 <= k < crows.len() ==> (#[trigger] crows[k]).len() == width,
                    height == rows@.len(),
                    1 <= height <= 256,
                    1 <= width <= 255,
                    rk < height,
                    source_row == height - 1 - rk,
                    source == piece_row(crows[source_row as int]),
                    f <= width,
                    squares@ == rows_flattened(crows, rk as int) + source.subrange(0, f as int),
                decreases width - f,
            {
                let piece = rows[source_row][f];
                squares.push(piece);
                proof {
                    assert(source.subrange(0, f + 1) =~= source.subrange(0, f as int).push(
                        source[f as int],
                    ));
                    assert(squares@ =~= rows_flattened(crows, rk as int) + source.subrange(
                        0,
                        f + 1,
                    ));
                }
                f = f + 1;
            }
            proof {
                assert(source.subrange(0, width as int) =~= source);
                assert(rows_flattened(crows, rk + 1) == rows_flattened(crows, rk as int) + source);
            }
            rk = rk + 1;
        }
        proof {
            lemma_rows_flattened_len(crows, height as int, width as int);
        }

        let board = Board::with_pieces(squares, width as u8);
        proof {
            let w = width as int;
            vstd::arithmetic::div_mod::lemma_mod_multiples_basic(height as int, w);
            vstd::arithmetic::mul::lemma_mul_inequality(height as int, 256, w);
            assert(board.placement().wf());
            assert(art_ok(s));
            assert forall|rk2: int, f2: int|
                0 <= rk2 < srows.len() && 0 <= f2 < srows[0].len() implies #[trigger] board.placement().piece_at(
                Square { rank: rk2 as u8, file: f2 as u8 },
            ) == Piece::spec_of_char(srows[srows.len() - 1 - rk2][f2]) by {
                lemma_rows_flattened_index(crows, height as int, w, rk2, f2);
                assert(board.placement().index_of(Square { rank: rk2 as u8, file: f2 as u8 })
                    == flat_index(rk2, w, f2));
            }
        }
        Ok(board)
    }

    /// Tests at run time whether this board is well-formed and fit for
    /// move generation: whole ranks, representable ranks, an on-board
    /// en-passant target, and a standard shape wherever the side to move
    /// still holds a castling right.
    pub fn check_wf(&self) -> (r: bool)
        ensures
            r == (self.wf() && (self.spec_right(self.current_move, CastlingDirection::Queenside)
                ==> self.standard_shape()) && (self.spec_right(
                self.current_move,
                CastlingDirection::Kingside,
            ) ==> self.standard_shape())),
    {
        let w = self.width as usize;
        if w < 1 {
            return false;
        }
        let len = self.squares.len();
        if len % w != 0 || len > 256 * w {
            return false;
        }
        let ep_ok = match self.en_passant_target {
            Some(t) => (t.file as usize) < w && linear_index(t.rank, t.file, self.width) < len,
            None => true,
        };
        if !ep_ok {
            return false;
        }
        let rights_ok = if self.get_castling_state(
            self.get_current_side(),
            CastlingDirection::Queenside,
        ) || self.get_castling_state(self.get_current_side(), CastlingDirection::Kingside) {
            self.width == 8 && len == 64
        } else {
            true
        };
        rights_ok
    }

    /// The diagram character shown for one square: the marker over the
    /// en-passant target, else the square's piece letter, else a dot.
    pub open spec fn art_char(self, sq: Square) -> char {
        if self.en_passant_target == Some(sq) {
            '*'
        } else {
            match self.placement().piece_at(sq) {
                Some(p) => p.spec_char(),
                None => '.',
            }
        }
    }

    /// One rendered diagram row.
    pub open spec fn art_row(self, rank: int) -> Seq<char> {
        Seq::new(
            self.width as nat,
            |f: int| self.art_char(Square { rank: rank as u8, file: f as u8 }),
        )
    }

    /// The rendered rows from rank `rank` down to rank 0, each followed by
    /// a newline.
    pub open spec fn art_rows_down(self, rank: int) -> Seq<char>
        decreases rank + 1,
    {
        if rank < 0 {
            Seq::empty()
        } else {
            self.art_row(rank) + seq!['\n'] + self.art_rows_down(rank - 1)
        }
    }

    /// The full diagram of this board: rank 0 printed at the bottom, piece
    /// letters as in [`Board::from_art`], with the en-passant target (if
    /// any) marked.
    pub open spec fn spec_art(self) -> Seq<char> {
        self.art_rows_down(self.placement().height() - 1)
    }

    /// The diagram text of one square, as a one-character string.
    fn art_char_str(&self, sq: Square) -> (r: &'static str)
        requires
            self.wf(),
            self.placement().in_bounds(sq),
        ensures
            r@ == seq![self.art_char(sq)],
    {
        let is_target = match self.en_passant_target {
            Some(t) => t == sq,
            None => false,
        };
        if is_target {
            proof {
                reveal_strlit("*");
                assert("*"@ =~= seq![self.art_char(sq)]);
            }
            return "*";
        }
        let piece = match self.get_piece_at_position(sq) {
            Ok(p) => p,
            Err(_) => None,
        };
        match piece {
            None => {
                proof {
                    reveal_strlit(".");
                    assert("."@ =~= seq![self.art_char(sq)]);
                }
                "."
            },
            Some(p) => match p.side {
                Side::White => match p.piece_type {
                    PieceType::Pawn => {
                        proof {
                            reveal_strlit("P");
                            assert("P"@ =~= seq![self.art_char(sq)]);
                        }
                        "P"
                    },
                    PieceType::Knight => {
                        proof {
                            reveal_strlit("N");
                            assert("N"@ =~= seq![self.art_char(sq)]);
                        }
                        "N"
                    },
                    PieceType::Bishop => {
                        proof {
                            reveal_strlit("B");
                            assert("B"@ =~= seq![self.art_char(sq)]);
                        }
                        "B"
                    },
                    PieceType::Rook => {
                        proof {
                            reveal_strlit("R");
                            assert("R"@ =~= seq![self.art_char(sq)]);
                        }
                        "R"
                    },
                    PieceType::Queen => {
                        proof {
                            reveal_strlit("Q");
                            assert("Q"@ =~= seq![self.art_char(sq)]);
                        }
                        "Q"
                    },
                    PieceType::King => {
                        proof {
                            reveal_strlit("K");
                            assert("K"@ =~= seq![self.art_char(sq)]);
                        }
                        "K"
                    },
                },
                Side::Black => match p.piece_type {
                    PieceType::Pawn => {
                        proof {
                            reveal_strlit("p");
                            assert("p"@ =~= seq![self.art_char(sq)]);
                        }
                        "p"
                    },
                    PieceType::Knight => {
                        proof {
                            reveal_strlit("n");
                            assert("n"@ =~= seq![self.art_char(sq)]);
                        }
                        "n"
                    },
                    PieceType::Bishop => {
                        proof {
                            reveal_strlit("b");
                            assert("b"@ =~= seq![self.art_char(sq)]);
                        }
                        "b"
                    },
                    PieceType::Rook => {
                        proof {
                            reveal_strlit("r");
                            assert("r"@ =~= seq![self.art_char(sq)]);
                        }
                        "r"
                    },
                    PieceType::Queen => {
                        proof {
                            reveal_strlit("q");
                            assert("q"@ =~= seq![self.art_char(sq)]);
                        }
                        "q"
                    },
                    PieceType::King => {
                        proof {
                            reveal_strlit("k");
                            assert("k"@ =~= seq![self.art_char(sq)]);
                        }
                        "k"
                    },
                },
            },
        }
    }

    /// Renders this board as a diagram: rank 0 at the bottom, piece
    /// letters as in [`Board::from_art`], a marker over the current
    /// en-passant target if any, and a newline after every row.
    pub fn to_art(&self) -> (r: String)
        requires
            self.wf(),
        ensures
            r@ == self.spec_art(),
    {
        let height = self.squares.len() / (self.width as usize);
        proof {
            if height >= 1 {
                self.placement().lemma_rank_file_in_bounds(0, 0);
            }
        }
        let mut out = String::new();
        proof {
            assert(Seq::<char>::empty() + self.spec_art() =~= self.spec_art());
        }
        let mut printed: usize = 0;
        while printed < height
            invariant
                self.wf(),
                height == self.placement().height(),
                height <= 256,
                printed <= height,
                out@ + self.art_rows_down(height - 1 - printed) == self.spec_art(),
            decreases height - printed,
        {
            let rank = height - 1 - printed;
            let ghost row = self.art_row(rank as int);
            let ghost before = out@;
            let mut f: usize = 0;
            while f < self.width as usize
                invariant
                    self.wf(),
                    height == self.placement().height(),
                    height <= 256,
                    rank < height,
                    row == self.art_row(rank as int),
                    f <= self.width,
                    out@ == before + row.subrange(0, f as int),
                decreases self.width - f,
            {
                proof {
                    self.placement().lemma_rank_file_in_bounds(rank as int, f as int);
                }
                let sq = Square { rank: rank as u8, file: f as u8 };
                let ch = self.art_char_str(sq);
                out.append(ch);
                proof {
                    assert(row.subrange(0, f + 1) =~= row.subrange(0, f as int).push(
                        row[f as int],
                    ));
                    assert(out@ =~= before + row.subrange(0, f + 1));
                }
                f = f + 1;
            }
            proof {
                reveal_strlit("\n");
            }
            out.append("\n");
            proof {
                assert(row.subrange(0, self.width as int) =~= row);
                assert(self.art_rows_down(rank as int) == row + seq!['\n'] + self.art_rows_down(
                    rank as int - 1,
                ));
                assert("\n"@ =~= seq!['\n']);
                assert(out@ =~= before + row + seq!['\n']);
                assert(out@ + self.art_rows_down(height - 1 - (printed + 1))
                    =~= self.spec_art());
            }
            printed = printed + 1;
        }
        proof {
            assert(self.art_rows_down(height - 1 - height as int) =~= Seq::<char>::empty());
            assert(out@ + Seq::<char>::empty() =~= out@);
        }
        out
    }

    /// Constructs a board from the given squares and width. The new board
    /// has White to move, no en-passant target, and no castling rights:
    /// rights cannot be inferred from the pieces alone, so none are granted.
    pub fn with_pieces(pieces: Vec<Option<Piece>>, width: u8) -> (r: Self)
        ensures
            r.squares@ == pieces@,
            r.width == width,
            r.en_passant_target is None,
            r.current_move == Side::White,
            r.castling_availability@ == seq![false, false, false, false],
    {
        let board = Board {
            squares: pieces,
            width,
            en_passant_target: None,
            current_move: Side::White,
            castling_availability: [false, false, false, false],
        };
        proof {
            assert(board.castling_availability@ =~= seq![false, false, false, false]);
        }
        board
    }

    /// A read-only view into the squares of the board.
    pub fn get_squares(&self) -> (r: &[Option<Piece>])
        ensures
            r@ == self.squares@,
    {
        self.squares.as_slice()
    }

    /// The side that moves next.
    pub fn get_current_side(&self) -> (r: Side)
        ensures
            r == self.current_move,
    {
        self.current_move
    }

    /// Flips the side to move, leaving everything else unchanged, and
    /// returns the board for chaining.
    pub fn flip_current_side(&mut self) -> (r: &mut Self)
        ensures
            *final(self) == *final(r),
            r.squares@ == old(self).squares@,
            r.width == old(self).width,
            r.en_passant_target == old(self).en_passant_target,
            r.current_move == old(self).current_move.opposite(),
            r.castling_availability@ == old(self).castling_availability@,
    {
        self.current_move = self.current_move.flip();
        self
    }

    /// An identical copy of this board, as trial moves are applied to.
    pub fn duplicate(&self) -> (r: Board)
        ensures
            r.same_position(*self),
    {
        let mut squares: Vec<Option<Piece>> = Vec::new();
        let mut i: usize = 0;
        while i < self.squares.len()
            invariant
                i <= self.squares@.len(),
                squares@ == self.squares@.subrange(0, i as int),
            decreases self.squares@.len() - i,
        {
            squares.push(self.squares[i]);
            assert(squares@ =~= self.squares@.subrange(0, i + 1));
            i = i + 1;
        }
        proof {
            assert(squares@ =~= self.squares@);
        }
        Board {
            squares,
            width: self.width,
            en_passant_target: self.en_passant_target,
            current_move: self.current_move,
            castling_availability: self.castling_availability,
        }
    }

    /// The piece at the given square, `None` for an empty square.
    pub fn get_piece_at_position(&self, square: Square) -> (r: Result<
        Option<Piece>,
        InvalidSquareError,
    >)
        requires
            self.placement().in_bounds(square),
        ensures
            r == Ok::<_, InvalidSquareError>(self.placement().piece_at(square)),
    {
        Ok(self.squares[linear_index(square.rank, square.file, self.width)])
    }

    /// Replaces the contents of the given square.
    pub fn set_piece_at_position(&mut self, piece: Option<Piece>, square: Square) -> (r: Result<
        (),
        &'static str,
    >)
        requires
            old(self).placement().in_bounds(square),
        ensures
            r is Ok,
            final(self).squares@ == old(self).squares@.update(
                old(self).placement().index_of(square),
                piece,
            ),
            final(self).width == old(self).width,
            final(self).en_passant_target == old(self).en_passant_target,
            final(self).current_move == old(self).current_move,
            final(self).castling_availability@ == old(self).castling_availability@,
    {
        let index = linear_index(square.rank, square.file, self.width);
        self.squares.set(index, piece);
        Ok(())
    }

    /// The square that the given linear index denotes; an index past the end
    /// of the squares is rejected.
    pub fn index_to_position(&self, index: usize) -> (r: Result<Square, &'static str>)
        requires
            self.wf(),
        ensures
            index < self.squares@.len() ==> r == Ok::<_, &'static str>(
                self.placement().square_of(index as int),
            ),
            index < self.squares@.len() ==> (r matches Ok(sq) && self.placement().in_bounds(sq)),
            index >= self.squares@.len() ==> r is Err,
    {
        if index >= self.squares.len() {
            Err("Index out of bounds")
        } else {
            let rank = index / (self.width as usize);
            let file = index % (self.width as usize);
            proof {
                self.placement().lemma_square_of(index as int);
            }
            Ok(Square { rank: rank as u8, file: file as u8 })
        }
    }

    /// Walks from `pos` in the direction of `offset` and returns the first
    /// blocked square: the last empty square before a piece, or the square
    /// of an opposing piece itself when `can_take` is set.
    pub(crate) fn check_ray_for_pieces(&self, pos: Square, offset: Offset, can_take: bool) -> (r:
        Square)
        requires
            self.wf(),
            self.placement().in_bounds(pos),
            offset.file != 0 || offset.rank != 0,
        ensures
            r == self.placement().ray_end(pos, offset, can_take),
            self.placement().in_bounds(r),
    {
        let mut final_pos = pos;
        loop
            invariant_except_break
                self.wf(),
                offset.file != 0 || offset.rank != 0,
                self.placement().in_bounds(final_pos),
                self.placement().ray_end(pos, offset, can_take) == self.placement().ray_end(
                    final_pos,
                    offset,
                    can_take,
                ),
            ensures
                final_pos == self.placement().ray_end(pos, offset, can_take),
                self.placement().in_bounds(final_pos),
            decreases self.placement().ray_fuel(final_pos, offset),
        {
            match self.add_offset_to_position(final_pos, offset) {
                Err(_) => {
                    break ;
                },
                Ok(new_pos) => {
                    proof {
                        self.placement().lemma_step_fuel(final_pos, new_pos, offset);
                    }
                    match self.get_piece_at_position(new_pos) {
                        Ok(Some(p)) => {
                            if p.side == self.current_move {
                                break ;
                            } else {
                                if can_take {
                                    final_pos = new_pos;
                                }
                                break ;
                            }
                        },
                        Ok(None) => {
                            final_pos = new_pos;
                        },
                        Err(_) => {
                            break ;
                        },
                    }
                },
            }
        }
        final_pos
    }

    /// Every square strictly between `start` and `dest` along `offset`,
    /// including `dest` itself; rejected when stepping by `offset` leaves
    /// the board before reaching `dest`.
    pub(crate) fn get_all_squares_between(&self, start: Square, dest: Square, offset: Offset) -> (r:
        Result<Vec<Square>, InvalidOffsetError>)
        requires
            self.wf(),
            self.placement().in_bounds(start),
            offset.file != 0 || offset.rank != 0,
        ensures
            r is Ok <==> self.placement().reaches(start, dest, offset),
            r matches Ok(v) ==> v@ == self.placement().span(start, dest, offset),
    {
        let mut squares: Vec<Square> = Vec::new();
        let mut current = start;
        loop
            invariant_except_break
                self.wf(),
                offset.file != 0 || offset.rank != 0,
                self.placement().in_bounds(current),
                self.placement().reaches(start, dest, offset) <==> self.placement().reaches(
                    current,
                    dest,
                    offset,
                ),
                self.placement().span(start, dest, offset) == squares@ + self.placement().span(
                    current,
                    dest,
                    offset,
                ),
            ensures
                current == dest,
                self.placement().reaches(start, dest, offset),
                squares@ == self.placement().span(start, dest, offset),
            decreases self.placement().ray_fuel(current, offset),
        {
            if current == dest {
                proof {
                    assert(self.placement().span(current, dest, offset) =~= Seq::empty());
                    assert(squares@ + Seq::<Square>::empty() =~= squares@);
                }
                break ;
            }
            match self.add_offset_to_position(current, offset) {
                Err(e) => {
                    return Err(e);
                },
                Ok(next) => {
                    proof {
                        self.placement().lemma_step_fuel(current, next, offset);
                        assert(self.placement().span(current, dest, offset) =~= seq![next]
                            + self.placement().span(next, dest, offset));
                        assert(squares@ + (seq![next] + self.placement().span(next, dest, offset))
                            =~= (squares@ + seq![next]) + self.placement().span(
                            next,
                            dest,
                            offset,
                        ));
                    }
                    squares.push(next);
                    current = next;
                },
            }
        }
        Ok(squares)
    }

    /// The squares that hold the given piece, in index order.
    pub(crate) fn get_positions_of_matching_pieces(&self, piece: Piece) -> (r: Result<
        Vec<Square>,
        &'static str,
    >)
        requires
            self.wf(),
        ensures
            r matches Ok(v) && v@ == self.placement().matching_positions(piece),
    {
        let mut positions: Vec<Square> = Vec::new();
        let mut i: usize = 0;
        while i < self.squares.len()
            invariant
                self.wf(),
                i <= self.squares@.len(),
                positions@ == self.placement().matching_up_to(piece, i as int),
            decreases self.squares@.len() - i,
        {
            let keep = match self.squares[i] {
                Some(p) => p == piece,
                None => false,
            };
            if keep {
                match self.index_to_position(i) {
                    Ok(sq) => {
                        positions.push(sq);
                    },
                    Err(_) => {},
                }
            }
            assert(positions@ == self.placement().matching_up_to(piece, i + 1));
            i = i + 1;
        }
        Ok(positions)
    }

    /// The squares after the pieces of a move are relocated, before any
    /// bookkeeping: a simple move empties the origin and overwrites the
    /// destination; en passant additionally empties the captured pawn's
    /// square; a castle moves king and rook to their target files; a null
    /// move changes nothing.
    pub open spec fn squares_after_relocation(self, m: ChessMove) -> Seq<Option<Piece>> {
        let p = self.placement();
        match m {
            ChessMove::SimpleMove(from, to) => self.squares@.update(
                p.index_of(from),
                None,
            ).update(p.index_of(to), p.piece_at(from)),
            ChessMove::EnPassant(from, to, cap) => self.squares@.update(
                p.index_of(from),
                None,
            ).update(p.index_of(to), p.piece_at(from)).update(p.index_of(cap), None),
            ChessMove::Castling(dir) => {
                let side = self.current_move;
                self.squares@.update(
                    p.index_of(castling::king_target_square(side, dir)),
                    Some(Piece { side, piece_type: PieceType::King }),
                ).update(
                    p.index_of(castling::rook_target_square(side, dir)),
                    Some(Piece { side, piece_type: PieceType::Rook }),
                ).update(p.index_of(castling::king_home_square(side)), None).update(
                    p.index_of(castling::rook_home_square(side, dir)),
                    None,
                )
            },
            ChessMove::NullMove => self.squares@,
        }
    }

    /// Whether the relocation stage of a move is accepted: the origin must
    /// hold a piece of the side to move, the destination must not hold a
    /// piece of the side to move, and a castle must pass the full castling
    /// check.
    pub open spec fn relocation_ok(self, m: ChessMove, checked: bool) -> bool {
        let p = self.placement();
        match m {
            ChessMove::SimpleMove(from, to) => p.own_piece_at(from) && !p.own_piece_at(to),
            ChessMove::EnPassant(from, to, _) => p.own_piece_at(from) && !p.own_piece_at(to),
            ChessMove::Castling(dir) => self.spec_can_castle(dir, checked),
            ChessMove::NullMove => true,
        }
    }

    /// The arrangement right after relocation, before the side to move
    /// flips: the state the self-check test runs on.
    pub open spec fn mid_placement(self, m: ChessMove) -> Placement {
        Placement {
            squares: self.squares_after_relocation(m),
            width: self.width as int,
            turn: self.current_move,
        }
    }

    /// Whether a move may be made from this position: its relocation stage
    /// is accepted and, when `checked`, the mover's own king is not left
    /// attacked. This is the sole legality oracle of move generation.
    pub open spec fn move_allowed(self, m: ChessMove, checked: bool) -> bool {
        self.relocation_ok(m, checked) && (checked ==> !self.mid_placement(m).in_check())
    }

    /// Whether a simple move is a fresh two-square pawn push.
    pub open spec fn is_double_pawn_push(self, from: Square, to: Square) -> bool {
        &&& (self.placement().piece_at(from) matches Some(pc) && pc.piece_type == PieceType::Pawn)
        &&& from.file == to.file
        &&& (to.rank == from.rank + 2 || to.rank + 2 == from.rank)
    }

    /// The square a two-square pawn push passes over.
    pub open spec fn push_middle_square(from: Square, to: Square) -> Square {
        Square { rank: ((from.rank + to.rank) / 2) as u8, file: from.file }
    }

    /// The en-passant target after a move: the passed-over square for a
    /// fresh two-square pawn push, and `None` for every other move.
    pub open spec fn ep_after(self, m: ChessMove) -> Option<Square> {
        match m {
            ChessMove::SimpleMove(from, to) => if self.is_double_pawn_push(from, to) {
                Some(Board::push_middle_square(from, to))
            } else {
                None
            },
            _ => None,
        }
    }

    /// Whether a move clears the castling flag of one side and direction:
    /// any move leaving the side to move's king-home square clears both of
    /// that side's flags, a move leaving a rook-home square clears that
    /// flag, a move onto an opposing rook-home square clears the opponent's
    /// flag, and castling clears both flags of the castling side.
    pub open spec fn right_cleared(self, m: ChessMove, side: Side, dir: CastlingDirection) -> bool {
        match m {
            ChessMove::SimpleMove(from, to) => (side == self.current_move && from
                == castling::king_home_square(side)) || (side == self.current_move && from
                == castling::rook_home_square(side, dir)) || (side == self.current_move.opposite()
                && to == castling::rook_home_square(side, dir)),
            ChessMove::Castling(_) => side == self.current_move,
            ChessMove::EnPassant(_, _, _) => false,
            ChessMove::NullMove => false,
        }
    }

    /// The four castling flags after a move: a flag survives exactly when
    /// it was set and the move does not clear it. Flags are never set.
    pub open spec fn rights_after(self, m: ChessMove) -> Seq<bool> {
        Seq::new(
            4,
            |i: int|
                self.castling_availability@[i] && !self.right_cleared(
                    m,
                    castling::side_of_rights_index(i),
                    castling::direction_of_rights_index(i),
                ),
        )
    }

    /// The bounds every square named by a move must satisfy before the move
    /// can be attempted; a castle additionally needs the standard board
    /// whenever its flag is still set.
    pub open spec fn move_squares_ok(self, m: ChessMove) -> bool {
        let p = self.placement();
        match m {
            ChessMove::SimpleMove(from, to) => p.in_bounds(from) && p.in_bounds(to),
            ChessMove::EnPassant(from, to, cap) => p.in_bounds(from) && p.in_bounds(to)
                && p.in_bounds(cap),
            ChessMove::Castling(dir) => self.spec_right(self.current_move, dir)
                ==> self.standard_shape(),
            ChessMove::NullMove => true,
        }
    }

    /// Returns whether the side to move has a king under attack.
    ///
    /// Rather than generating every opposing reply, this scans outward from
    /// each king with the attacker's own movement geometry.
    pub fn check_king_threat(&self) -> (r: Result<bool, &'static str>)
        requires
            self.wf(),
        ensures
            r == Ok::<_, &'static str>(self.placement().in_check()),
    {
        let king = Piece::new(self.current_move, PieceType::King);
        let king_positions = match self.get_positions_of_matching_pieces(king) {
            Ok(v) => v,
            Err(e) => {
                return Err(e);
            },
        };
        proof {
            self.placement().lemma_matching_positions_valid(king);
        }

        let knight_offsets = knight_offset_list();
        let king_offsets = king_step_offset_list();
        let rook_offsets = rook_offset_list();
        let bishop_offsets = bishop_offset_list();
        let pawn_offsets = pawn_checker_offset_list(self.current_move.flip());

        let ghost p = self.placement();
        let mut i: usize = 0;
        while i < king_positions.len()
            invariant
                self.wf(),
                p == self.placement(),
                king == (Piece { side: self.current_move, piece_type: PieceType::King }),
                king_positions@ == p.matching_positions(king),
                forall|j: int|
                    0 <= j < king_positions@.len() ==> p.in_bounds(#[trigger] king_positions@[j])
                        && p.piece_at(king_positions@[j]) == Some(king),
                knight_offsets@ == model::knight_jumps(),
                king_offsets@ == model::king_steps(),
                rook_offsets@ == model::rook_dirs(),
                bishop_offsets@ == model::bishop_dirs(),
                pawn_offsets@ == model::pawn_checker_offsets(self.current_move.opposite()),
                i <= king_positions@.len(),
                forall|j: int| 0 <= j < i ==> !p.square_attacked(#[trigger] king_positions@[j]),
            decreases king_positions@.len() - i,
        {
            let pos = king_positions[i];

            let mut attacked = self.check_king_threat_from_offset(
                pos,
                &knight_offsets,
                PieceType::Knight,
            )?;
            if !attacked {
                attacked = self.check_king_threat_from_offset(
                    pos,
                    &king_offsets,
                    PieceType::King,
                )?;
            }
            if !attacked {
                attacked = self.check_king_threat_from_offset_extent(
                    pos,
                    &rook_offsets,
                    PieceType::Rook,
                )? || self.check_king_threat_from_offset_extent(
                    pos,
                    &rook_offsets,
                    PieceType::Queen,
                )?;
            }
            if !attacked {
                attacked = self.check_king_threat_from_offset_extent(
                    pos,
                    &bishop_offsets,
                    PieceType::Bishop,
                )? || self.check_king_threat_from_offset_extent(
                    pos,
                    &bishop_offsets,
                    PieceType::Queen,
                )?;
            }
            if !attacked {
                attacked = self.check_king_threat_from_offset(
                    pos,
                    &pawn_offsets,
                    PieceType::Pawn,
                )?;
            }

            if attacked {
                proof {
                    assert(p.square_attacked(pos));
                    assert(p.in_check());
                }
                return Ok(true);
            }
            proof {
                assert(!p.square_attacked(pos));
            }
            i = i + 1;
        }
        proof {
            if p.in_check() {
                let s = choose|s: Square|
                    p.in_bounds(s) && p.piece_at(s) == Some(king) && #[trigger] p.square_attacked(
                        s,
                    );
                p.lemma_matching_membership(king, p.squares.len() as int, s);
                let j = choose|j: int|
                    0 <= j < p.matching_positions(king).len() && p.matching_positions(king)[j]
                        == s;
                assert(!p.square_attacked(king_positions@[j]));
                assert(false);
            }
        }
        Ok(false)
    }

    /// Whether an opposing piece of the given type stands one of the given
    /// offsets away from `king_pos`.
    #[inline]
    fn check_king_threat_from_offset(
        &self,
        king_pos: Square,
        offset_list: &Vec<Offset>,
        opponent_piece_type: PieceType,
    ) -> (r: Result<bool, &'static str>)
        requires
            self.wf(),
            self.placement().in_bounds(king_pos),
        ensures
            r == Ok::<_, &'static str>(
                exists|i: int|
                    0 <= i < offset_list@.len() && self.placement().jump_threat(
                        king_pos,
                        offset_list@[i],
                        opponent_piece_type,
                    ),
            ),
    {
        let opponents_side = self.current_move.flip();
        let mut i: usize = 0;
        while i < offset_list.len()
            invariant
                self.wf(),
                self.placement().in_bounds(king_pos),
                opponents_side == self.current_move.opposite(),
                i <= offset_list@.len(),
                forall|j: int|
                    0 <= j < i ==> !self.placement().jump_threat(
                        king_pos,
                        #[trigger] offset_list@[j],
                        opponent_piece_type,
                    ),
            decreases offset_list@.len() - i,
        {
            let offset = offset_list[i];
            match self.add_offset_to_position(king_pos, offset) {
                Ok(opponent_pos) => {
                    let maybe_piece = match self.get_piece_at_position(opponent_pos) {
                        Ok(mp) => mp,
                        Err(_) => None,
                    };
                    match maybe_piece {
                        Some(piece) => {
                            if piece.piece_type == opponent_piece_type && piece.side
                                == opponents_side {
                                proof {
                                    assert(self.placement().jump_threat(
                                        king_pos,
                                        offset_list@[i as int],
                                        opponent_piece_type,
                                    ));
                                }
                                return Ok(true);
                            }
                        },
                        None => {},
                    }
                },
                Err(_) => {},
            }
            i = i + 1;
        }
        Ok(false)
    }

    /// Whether a capturing ray in one of the given directions from
    /// `king_pos` ends on an opposing piece of the given type.
    #[inline]
    fn check_king_threat_from_offset_extent(
        &self,
        king_pos: Square,
        offset_list: &Vec<Offset>,
        opponent_piece_type: PieceType,
    ) -> (r: Result<bool, &'static str>)
        requires
            self.wf(),
            self.placement().in_bounds(king_pos),
            forall|j: int|
                0 <= j < offset_list@.len() ==> ((#[trigger] offset_list@[j]).file != 0
                    || offset_list@[j].rank != 0),
        ensures
            r == Ok::<_, &'static str>(
                exists|i: int|
                    0 <= i < offset_list@.len() && self.placement().ray_threat(
                        king_pos,
                        offset_list@[i],
                        opponent_piece_type,
                    ),
            ),
    {
        let opponents_side = self.current_move.flip();
        let mut i: usize = 0;
        while i < offset_list.len()
            invariant
                self.wf(),
                self.placement().in_bounds(king_pos),
                opponents_side == self.current_move.opposite(),
                forall|j: int|
                    0 <= j < offset_list@.len() ==> ((#[trigger] offset_list@[j]).file != 0
                        || offset_list@[j].rank != 0),
                i <= offset_list@.len(),
                forall|j: int|
                    0 <= j < i ==> !self.placement().ray_threat(
                        king_pos,
                        #[trigger] offset_list@[j],
                        opponent_piece_type,
                    ),
            decreases offset_list@.len() - i,
        {
            let offset = offset_list[i];
            let opponent_pos = self.check_ray_for_pieces(king_pos, offset, true);
            let maybe_piece = match self.get_piece_at_position(opponent_pos) {
                Ok(mp) => mp,
                Err(_) => None,
            };
            match maybe_piece {
                Some(piece) => {
                    if piece.piece_type == opponent_piece_type && piece.side == opponents_side {
                        proof {
                            assert(self.placement().ray_threat(
                                king_pos,
                                offset_list@[i as int],
                                opponent_piece_type,
                            ));
                        }
                        return Ok(true);
                    }
                },
                None => {},
            }
            i = i + 1;
        }
        Ok(false)
    }

    /// The value `update_en_passant_target` assigns: reads the already
    /// relocated board, so a fresh two-square pawn push is recognized by
    /// the pawn now standing on the push's destination.
    pub open spec fn ep_update_value(self, m: ChessMove) -> Option<Square> {
        match m {
            ChessMove::SimpleMove(from, to) => if (self.placement().piece_at(to) matches Some(pc)
                && pc.piece_type == PieceType::Pawn) && from.file == to.file && (to.rank
                == from.rank + 2 || to.rank + 2 == from.rank) {
                Some(Board::push_middle_square(from, to))
            } else {
                None
            },
            _ => None,
        }
    }

    /// The square a move relocates a piece from, where it names one.
    pub open spec fn move_origin(m: ChessMove) -> Option<Square> {
        match m {
            ChessMove::SimpleMove(from, _) => Some(from),
            ChessMove::EnPassant(from, _, _) => Some(from),
            _ => None,
        }
    }

    /// The square a move relocates a piece onto, where it names one.
    pub open spec fn move_target(m: ChessMove) -> Option<Square> {
        match m {
            ChessMove::SimpleMove(_, to) => Some(to),
            ChessMove::EnPassant(_, to, _) => Some(to),
            _ => None,
        }
    }

    /// Executes the given move in place: relocates the pieces, rejects a
    /// self-check when `checked`, recomputes the en-passant target, updates
    /// the castling flags, and flips the side to move.
    ///
    /// A rejected move, whichever stage rejected it, leaves the position
    /// exactly as it was: the stages run on a scratch copy that is taken
    /// over only once every stage has passed.
    pub fn make_move(&mut self, chess_move: ChessMove, checked: bool) -> (r: Result<
        (),
        &'static str,
    >)
        requires
            old(self).wf(),
            old(self).move_squares_ok(chess_move),
        ensures
            final(self).wf(),
            r is Ok <==> old(self).move_allowed(chess_move, checked),
            r is Ok ==> is_after_move(*old(self), chess_move, *final(self)),
            r is Err ==> final(self).same_position(*old(self)),
            r matches Err(e) ==> ({
                let p = old(self).placement();
                &&& (Board::move_origin(chess_move) matches Some(from) ==> (p.piece_at(from)
                    is None ==> e@ == "Can't make move, old_pos doesn't have piece"@))
                &&& (Board::move_origin(chess_move) matches Some(from) ==> ((p.piece_at(from)
                    is Some && !p.own_piece_at(from)) ==> e@
                    == "Can't make move, piece at old_pos isn't currently moving"@))
                &&& (Board::move_origin(chess_move) matches Some(from) ==> (Board::move_target(
                    chess_move,
                ) matches Some(to) ==> ((p.own_piece_at(from) && p.own_piece_at(to)) ==> e@
                    == "Can't make move, friendly piece exists at new_pos"@)))
                &&& ((chess_move matches ChessMove::Castling(_) && !old(self).relocation_ok(
                    chess_move,
                    checked,
                )) ==> e@ == "Can't castle"@)
                &&& (old(self).relocation_ok(chess_move, checked) ==> e@
                    == "Can't make move, there's King in check"@)
            }),
    {
        let mut next = self.duplicate();
        proof {
            lemma_same_position_move_specs(next, *old(self), chess_move, checked);
            assert(next.wf());
        }
        match next.apply_move_stages(chess_move, checked) {
            Err(e) => Err(e),
            Ok(_) => {
                *self = next;
                Ok(())
            },
        }
    }

    /// The stages of a move application, run in place: relocation, the
    /// self-check test, en-passant and castling bookkeeping, and the side
    /// flip. A self-check rejection leaves the relocation behind, so this
    /// only ever runs on the scratch copies its callers make.
    fn apply_move_stages(&mut self, chess_move: ChessMove, checked: bool) -> (r: Result<
        (),
        &'static str,
    >)
        requires
            old(self).wf(),
            old(self).move_squares_ok(chess_move),
        ensures
            final(self).wf(),
            r is Ok <==> old(self).move_allowed(chess_move, checked),
            r is Ok ==> is_after_move(*old(self), chess_move, *final(self)),
            !old(self).relocation_ok(chess_move, checked) ==> final(self).same_position(
                *old(self),
            ),
            r matches Err(e) ==> ({
                let p = old(self).placement();
                &&& (Board::move_origin(chess_move) matches Some(from) ==> (p.piece_at(from)
                    is None ==> e@ == "Can't make move, old_pos doesn't have piece"@))
                &&& (Board::move_origin(chess_move) matches Some(from) ==> ((p.piece_at(from)
                    is Some && !p.own_piece_at(from)) ==> e@
                    == "Can't make move, piece at old_pos isn't currently moving"@))
                &&& (Board::move_origin(chess_move) matches Some(from) ==> (Board::move_target(
                    chess_move,
                ) matches Some(to) ==> ((p.own_piece_at(from) && p.own_piece_at(to)) ==> e@
                    == "Can't make move, friendly piece exists at new_pos"@)))
                &&& ((chess_move matches ChessMove::Castling(_) && !old(self).relocation_ok(
                    chess_move,
                    checked,
                )) ==> e@ == "Can't castle"@)
                &&& (old(self).relocation_ok(chess_move, checked) ==> e@
                    == "Can't make move, there's King in check"@)
            }),
    {
        let relocated: Result<(), &'static str> = match chess_move {
            ChessMove::SimpleMove(from, to) => self.make_simple_move(from, to),
            ChessMove::EnPassant(from, to, capturing) => self.capture_en_passant(
                from,
                to,
                capturing,
            ),
            ChessMove::Castling(dir) => self.castle(dir, checked),
            ChessMove::NullMove => Ok(()),
        };
        match relocated {
            Err(e) => {
                return Err(e);
            },
            Ok(_) => {},
        }

        if checked {
            let threatened = match self.check_king_threat() {
                Ok(b) => b,
                Err(e) => {
                    return Err(e);
                },
            };
            if threatened {
                return Err("Can't make move, there's King in check");
            }
        }

        match self.update_en_passant_target(&chess_move) {
            Err(e) => {
                return Err(e);
            },
            Ok(_) => {},
        }
        self.update_castling_state(&chess_move);
        self.current_move = self.current_move.flip();
        proof {
            let pre = *old(self);
            match chess_move {
                ChessMove::SimpleMove(from, to) => {
                    assert(pre.squares_after_relocation(chess_move)[pre.placement().index_of(to)]
                        == pre.placement().piece_at(from));
                },
                _ => {},
            }
            assert(self.en_passant_target == pre.ep_after(chess_move));
            assert(self.castling_availability@ =~= pre.rights_after(chess_move));
        }
        Ok(())
    }

    /// Relocates one piece of the side to move from `from` to `to`,
    /// rejecting an empty or opposing origin and a destination the side to
    /// move already occupies.
    pub(crate) fn make_simple_move(&mut self, from: Square, to: Square) -> (r: Result<
        (),
        &'static str,
    >)
        requires
            old(self).wf(),
            old(self).placement().in_bounds(from),
            old(self).placement().in_bounds(to),
        ensures
            r is Ok <==> old(self).relocation_ok(ChessMove::SimpleMove(from, to), false),
            r is Ok ==> final(self).squares@ == old(self).squares_after_relocation(
                ChessMove::SimpleMove(from, to),
            ),
            r is Err ==> final(self).squares@ == old(self).squares@,
            final(self).width == old(self).width,
            final(self).en_passant_target == old(self).en_passant_target,
            final(self).current_move == old(self).current_move,
            final(self).castling_availability@ == old(self).castling_availability@,
            r matches Err(e) ==> (old(self).placement().piece_at(from) is None ==> e@
                == "Can't make move, old_pos doesn't have piece"@),
            r matches Err(e) ==> ((old(self).placement().piece_at(from) is Some && !old(
                self,
            ).placement().own_piece_at(from)) ==> e@
                == "Can't make move, piece at old_pos isn't currently moving"@),
            r matches Err(e) ==> ((old(self).placement().own_piece_at(from) && old(
                self,
            ).placement().own_piece_at(to)) ==> e@
                == "Can't make move, friendly piece exists at new_pos"@),
    {
        let old_piece = match self.get_piece_at_position(from) {
            Ok(p) => p,
            Err(_) => None,
        };
        let new_piece = match self.get_piece_at_position(to) {
            Ok(p) => p,
            Err(_) => None,
        };
        match old_piece {
            None => Err("Can't make move, old_pos doesn't have piece"),
            Some(p) => {
                if p.side != self.get_current_side() {
                    Err("Can't make move, piece at old_pos isn't currently moving")
                } else {
                    let friendly = match new_piece {
                        Some(q) => q.side == self.get_current_side(),
                        None => false,
                    };
                    if friendly {
                        Err("Can't make move, friendly piece exists at new_pos")
                    } else {
                        let _ = self.set_piece_at_position(None, from);
                        let _ = self.set_piece_at_position(old_piece, to);
                        Ok(())
                    }
                }
            },
        }
    }

    /// Relocates a pawn diagonally onto the en-passant target and clears
    /// the square of the pawn captured in passing.
    pub(crate) fn capture_en_passant(
        &mut self,
        from: Square,
        to: Square,
        capturing: Square,
    ) -> (r: Result<(), &'static str>)
        requires
            old(self).wf(),
            old(self).placement().in_bounds(from),
            old(self).placement().in_bounds(to),
            old(self).placement().in_bounds(capturing),
        ensures
            r is Ok <==> old(self).relocation_ok(ChessMove::EnPassant(from, to, capturing), false),
            r is Ok ==> final(self).squares@ == old(self).squares_after_relocation(
                ChessMove::EnPassant(from, to, capturing),
            ),
            r is Err ==> final(self).squares@ == old(self).squares@,
            final(self).width == old(self).width,
            final(self).en_passant_target == old(self).en_passant_target,
            final(self).current_move == old(self).current_move,
            final(self).castling_availability@ == old(self).castling_availability@,
            r matches Err(e) ==> (old(self).placement().piece_at(from) is None ==> e@
                == "Can't make move, old_pos doesn't have piece"@),
            r matches Err(e) ==> ((old(self).placement().piece_at(from) is Some && !old(
                self,
            ).placement().own_piece_at(from)) ==> e@
                == "Can't make move, piece at old_pos isn't currently moving"@),
            r matches Err(e) ==> ((old(self).placement().own_piece_at(from) && old(
                self,
            ).placement().own_piece_at(to)) ==> e@
                == "Can't make move, friendly piece exists at new_pos"@),
    {
        match self.make_simple_move(from, to) {
            Err(e) => Err(e),
            Ok(_) => {
                let _ = self.set_piece_at_position(None, capturing);
                Ok(())
            },
        }
    }

    /// Applies a move to a copy of this board and returns the copy; the
    /// original is never touched. This is how candidate moves are judged:
    /// a candidate is legal exactly when its trial succeeds.
    pub(crate) fn trial_move(&self, chess_move: ChessMove, checked: bool) -> (r: Result<
        Board,
        &'static str,
    >)
        requires
            self.wf(),
            self.move_squares_ok(chess_move),
        ensures
            r is Ok <==> self.move_allowed(chess_move, checked),
            r matches Ok(b) ==> is_after_move(*self, chess_move, b) && b.wf(),
            r matches Err(e) ==> ({
                let p = self.placement();
                &&& (Board::move_origin(chess_move) matches Some(from) ==> (p.piece_at(from)
                    is None ==> e@ == "Can't make move, old_pos doesn't have piece"@))
                &&& (Board::move_origin(chess_move) matches Some(from) ==> ((p.piece_at(from)
                    is Some && !p.own_piece_at(from)) ==> e@
                    == "Can't make move, piece at old_pos isn't currently moving"@))
                &&& (Board::move_origin(chess_move) matches Some(from) ==> (Board::move_target(
                    chess_move,
                ) matches Some(to) ==> ((p.own_piece_at(from) && p.own_piece_at(to)) ==> e@
                    == "Can't make move, friendly piece exists at new_pos"@)))
                &&& ((chess_move matches ChessMove::Castling(_) && !self.relocation_ok(
                    chess_move,
                    checked,
                )) ==> e@ == "Can't castle"@)
                &&& (self.relocation_ok(chess_move, checked) ==> e@
                    == "Can't make move, there's King in check"@)
            }),
    {
        let mut new_board = self.duplicate();
        proof {
            lemma_same_position_move_specs(new_board, *self, chess_move, checked);
        }
        match new_board.apply_move_stages(chess_move, checked) {
            Ok(_) => Ok(new_board),
            Err(e) => Err(e),
        }
    }

    /// Applies a simple move to a copy of this board and returns the copy;
    /// the original is never touched. An error is the one the move
    /// application reports for that move.
    pub fn new_board_with_moved_piece(&self, old_pos: Square, new_pos: Square, checked: bool) -> (r:
        Result<Board, &'static str>)
        requires
            self.wf(),
            self.placement().in_bounds(old_pos),
            self.placement().in_bounds(new_pos),
        ensures
            r is Ok <==> self.move_allowed(ChessMove::SimpleMove(old_pos, new_pos), checked),
            r matches Ok(b) ==> is_after_move(*self, ChessMove::SimpleMove(old_pos, new_pos), b)
                && b.wf(),
            r matches Err(e) ==> ({
                let p = self.placement();
                &&& (p.piece_at(old_pos) is None ==> e@
                    == "Can't make move, old_pos doesn't have piece"@)
                &&& ((p.piece_at(old_pos) is Some && !p.own_piece_at(old_pos)) ==> e@
                    == "Can't make move, piece at old_pos isn't currently moving"@)
                &&& ((p.own_piece_at(old_pos) && p.own_piece_at(new_pos)) ==> e@
                    == "Can't make move, friendly piece exists at new_pos"@)
                &&& (self.relocation_ok(ChessMove::SimpleMove(old_pos, new_pos), checked) ==> e@
                    == "Can't make move, there's King in check"@)
            }),
    {
        match self.trial_move(ChessMove::SimpleMove(old_pos, new_pos), checked) {
            Ok(b) => Ok(b),
            Err(e) => Err(e),
        }
    }

    /// The simple moves from `origin` onto the first `n` candidate squares
    /// that the legality oracle accepts, in candidate order.
    pub open spec fn allowed_simple_moves(
        self,
        origin: Square,
        cands: Seq<Square>,
        checked: bool,
        n: int,
    ) -> Seq<ChessMove>
        decreases n,
    {
        if n <= 0 {
            Seq::empty()
        } else {
            let prefix = self.allowed_simple_moves(origin, cands, checked, n - 1);
            if self.move_allowed(ChessMove::SimpleMove(origin, cands[n - 1]), checked) {
                prefix.push(ChessMove::SimpleMove(origin, cands[n - 1]))
            } else {
                prefix
            }
        }
    }

    /// The destinations the first `n` of the given fixed offsets yield from
    /// `pos`, keeping only those on the board.
    pub open spec fn jump_candidates(self, pos: Square, offs: Seq<Offset>, n: int) -> Seq<Square>
        decreases n,
    {
        if n <= 0 {
            Seq::empty()
        } else {
            let prefix = self.jump_candidates(pos, offs, n - 1);
            match self.placement().step(pos, offs[n - 1]) {
                Some(sq) => prefix.push(sq),
                None => prefix,
            }
        }
    }

    /// The candidate destinations of one ray: every square from `pos` out
    /// to the capturing ray's end.
    pub open spec fn ray_candidates(self, pos: Square, off: Offset) -> Seq<Square> {
        self.placement().span(pos, self.placement().ray_end(pos, off, true), off)
    }

    /// The candidate destinations of the first `n` ray directions from
    /// `pos`, concatenated in direction order.
    pub open spec fn slide_candidates(self, pos: Square, dirs: Seq<Offset>, n: int) -> Seq<Square>
        decreases n,
    {
        if n <= 0 {
            Seq::empty()
        } else {
            self.slide_candidates(pos, dirs, n - 1) + self.ray_candidates(pos, dirs[n - 1])
        }
    }

    /// The moves of the side to move's pieces of a fixed-offset kind
    /// (knight or king), over the first `n` pieces in index order.
    pub open spec fn jump_piece_moves(
        self,
        pt: PieceType,
        offs: Seq<Offset>,
        checked: bool,
        n: int,
    ) -> Seq<ChessMove>
        decreases n,
    {
        let positions = self.placement().matching_positions(
            Piece { side: self.current_move, piece_type: pt },
        );
        if n <= 0 {
            Seq::empty()
        } else {
            self.jump_piece_moves(pt, offs, checked, n - 1) + self.allowed_simple_moves(
                positions[n - 1],
                self.jump_candidates(positions[n - 1], offs, offs.len() as int),
                checked,
                self.jump_candidates(positions[n - 1], offs, offs.len() as int).len() as int,
            )
        }
    }

    /// The moves of the side to move's sliding pieces of one kind, over the
    /// first `n` pieces in index order.
    pub open spec fn slide_piece_moves(
        self,
        pt: PieceType,
        dirs: Seq<Offset>,
        checked: bool,
        n: int,
    ) -> Seq<ChessMove>
        decreases n,
    {
        let positions = self.placement().matching_positions(
            Piece { side: self.current_move, piece_type: pt },
        );
        if n <= 0 {
            Seq::empty()
        } else {
            self.slide_piece_moves(pt, dirs, checked, n - 1) + self.allowed_simple_moves(
                positions[n - 1],
                self.slide_candidates(positions[n - 1], dirs, dirs.len() as int),
                checked,
                self.slide_candidates(positions[n - 1], dirs, dirs.len() as int).len() as int,
            )
        }
    }

    /// Every candidate destination, taken in order, whose simple move from
    /// `origin` the legality oracle accepts.
    fn allowed_moves_from(&self, origin: Square, candidates: &Vec<Square>, checked: bool) -> (r:
        Vec<ChessMove>)
        requires
            self.wf(),
            self.placement().in_bounds(origin),
            forall|j: int|
                0 <= j < candidates@.len() ==> self.placement().in_bounds(
                    #[trigger] candidates@[j],
                ),
        ensures
            r@ == self.allowed_simple_moves(
                origin,
                candidates@,
                checked,
                candidates@.len() as int,
            ),
    {
        let mut moves: Vec<ChessMove> = Vec::new();
        let mut i: usize = 0;
        while i < candidates.len()
            invariant
                self.wf(),
                self.placement().in_bounds(origin),
                forall|j: int|
                    0 <= j < candidates@.len() ==> self.placement().in_bounds(
                        #[trigger] candidates@[j],
                    ),
                i <= candidates@.len(),
                moves@ == self.allowed_simple_moves(origin, candidates@, checked, i as int),
            decreases candidates@.len() - i,
        {
            let to = candidates[i];
            match self.new_board_with_moved_piece(origin, to, checked) {
                Ok(_) => {
                    moves.push(ChessMove::SimpleMove(origin, to));
                },
                Err(_) => {},
            }
            assert(moves@ == self.allowed_simple_moves(origin, candidates@, checked, i + 1));
            i = i + 1;
        }
        moves
    }

    /// The on-board destinations the given fixed offsets yield from `pos`.
    fn jump_candidate_squares(&self, pos: Square, offsets: &Vec<Offset>) -> (r: Vec<Square>)
        requires
            self.wf(),
        ensures
            r@ == self.jump_candidates(pos, offsets@, offsets@.len() as int),
            forall|j: int| 0 <= j < r@.len() ==> self.placement().in_bounds(#[trigger] r@[j]),
    {
        let mut candidates: Vec<Square> = Vec::new();
        let mut i: usize = 0;
        while i < offsets.len()
            invariant
                self.wf(),
                i <= offsets@.len(),
                candidates@ == self.jump_candidates(pos, offsets@, i as int),
                forall|j: int|
                    0 <= j < candidates@.len() ==> self.placement().in_bounds(
                        #[trigger] candidates@[j],
                    ),
            decreases offsets@.len() - i,
        {
            match self.add_offset_to_position(pos, offsets[i]) {
                Ok(sq) => {
                    candidates.push(sq);
                },
                Err(_) => {},
            }
            assert(candidates@ == self.jump_candidates(pos, offsets@, i + 1));
            i = i + 1;
        }
        candidates
    }

    /// The moves of the side to move's pieces of a fixed-offset kind: for
    /// each such piece in index order, each offset destination on the board
    /// that the legality oracle accepts.
    pub(crate) fn generate_jump_piece_moves(
        &self,
        piece_type: PieceType,
        offsets: &Vec<Offset>,
        checked: bool,
    ) -> (r: Result<Vec<ChessMove>, &'static str>)
        requires
            self.wf(),
        ensures
            r matches Ok(v) && v@ == self.jump_piece_moves(
                piece_type,
                offsets@,
                checked,
                self.placement().matching_positions(
                    Piece { side: self.current_move, piece_type },
                ).len() as int,
            ),
    {
        let piece = Piece::new(self.get_current_side(), piece_type);
        let positions = match self.get_positions_of_matching_pieces(piece) {
            Ok(v) => v,
            Err(e) => {
                return Err(e);
            },
        };
        proof {
            self.placement().lemma_matching_positions_valid(piece);
        }

        let mut moves: Vec<ChessMove> = Vec::new();
        let mut i: usize = 0;
        while i < positions.len()
            invariant
                self.wf(),
                piece == (Piece { side: self.current_move, piece_type }),
                positions@ == self.placement().matching_positions(piece),
                forall|j: int|
                    0 <= j < positions@.len() ==> self.placement().in_bounds(
                        #[trigger] positions@[j],
                    ),
                i <= positions@.len(),
                moves@ == self.jump_piece_moves(piece_type, offsets@, checked, i as int),
            decreases positions@.len() - i,
        {
            let pos = positions[i];
            let candidates = self.jump_candidate_squares(pos, offsets);
            let mut new_moves = self.allowed_moves_from(pos, &candidates, checked);
            moves.append(&mut new_moves);
            assert(moves@ == self.jump_piece_moves(piece_type, offsets@, checked, i + 1));
            i = i + 1;
        }
        Ok(moves)
    }

    /// Every move available from this position, in generation order: pawn,
    /// knight, bishop, rook, queen and king moves, then castling.
    pub open spec fn move_seq(self, checked: bool) -> Seq<ChessMove> {
        self.pawn_move_seq(checked) + self.knight_move_seq(checked) + self.bishop_move_seq(checked)
            + self.rook_move_seq(checked) + self.queen_move_seq(checked) + self.king_move_seq(
            checked,
        ) + self.castle_move_seq(checked)
    }

    /// Whether a move is fit to try: its squares are on the board and, for
    /// a castle, the board has the standard shape. Together with being
    /// accepted by the legality oracle.
    pub open spec fn move_props(self, m: ChessMove, checked: bool) -> bool {
        self.move_squares_ok(m) && self.move_allowed(m, checked)
    }

    /// Every candidate that `allowed_simple_moves` keeps is a legal simple
    /// move over on-board squares.
    pub proof fn lemma_allowed_simple_props(
        self,
        origin: Square,
        cands: Seq<Square>,
        checked: bool,
        n: int,
    )
        requires
            self.wf(),
            self.placement().in_bounds(origin),
            forall|j: int| 0 <= j < n ==> self.placement().in_bounds(#[trigger] cands[j]),
        ensures
            forall|k: int|
                0 <= k < self.allowed_simple_moves(origin, cands, checked, n).len()
                    ==> self.move_props(
                    #[trigger] self.allowed_simple_moves(origin, cands, checked, n)[k],
                    checked,
                ),
        decreases n,
    {
        if n > 0 {
            self.lemma_allowed_simple_props(origin, cands, checked, n - 1);
            let prev = self.allowed_simple_moves(origin, cands, checked, n - 1);
            let cur = self.allowed_simple_moves(origin, cands, checked, n);
            assert forall|k: int| 0 <= k < cur.len() implies self.move_props(
                #[trigger] cur[k],
                checked,
            ) by {
                if k < prev.len() {
                    assert(cur[k] == prev[k]);
                } else {
                    assert(cur[k] == ChessMove::SimpleMove(origin, cands[n - 1]));
                }
            }
        }
    }

    /// Every destination a jump-candidate list holds is on the board.
    pub proof fn lemma_jump_candidates_in_bounds(self, pos: Square, offs: Seq<Offset>, n: int)
        ensures
            forall|j: int|
                0 <= j < self.jump_candidates(pos, offs, n).len() ==> self.placement().in_bounds(
                    #[trigger] self.jump_candidates(pos, offs, n)[j],
                ),
        decreases n,
    {
        if n > 0 {
            self.lemma_jump_candidates_in_bounds(pos, offs, n - 1);
            let prev = self.jump_candidates(pos, offs, n - 1);
            let cur = self.jump_candidates(pos, offs, n);
            assert forall|j: int| 0 <= j < cur.len() implies self.placement().in_bounds(
                #[trigger] cur[j],
            ) by {
                if j < prev.len() {
                    assert(cur[j] == prev[j]);
                } else {
                    match self.placement().step(pos, offs[n - 1]) {
                        Some(next) => {
                            assert(cur[j] == next);
                        },
                        None => {},
                    }
                }
            }
        }
    }

    /// Every destination a slide-candidate list holds is on the board.
    pub proof fn lemma_slide_candidates_in_bounds(self, pos: Square, dirs: Seq<Offset>, n: int)
        requires
            self.wf(),
            self.placement().in_bounds(pos),
            forall|j: int|
                0 <= j < n ==> ((#[trigger] dirs[j]).file != 0 || dirs[j].rank != 0),
        ensures
            forall|j: int|
                0 <= j < self.slide_candidates(pos, dirs, n).len() ==> self.placement().in_bounds(
                    #[trigger] self.slide_candidates(pos, dirs, n)[j],
                ),
        decreases n,
    {
        if n > 0 {
            self.lemma_slide_candidates_in_bounds(pos, dirs, n - 1);
            self.placement().lemma_span_in_bounds(
                pos,
                self.placement().ray_end(pos, dirs[n - 1], true),
                dirs[n - 1],
            );
            let prev = self.slide_candidates(pos, dirs, n - 1);
            let seg = self.ray_candidates(pos, dirs[n - 1]);
            let cur = self.slide_candidates(pos, dirs, n);
            assert forall|j: int| 0 <= j < cur.len() implies self.placement().in_bounds(
                #[trigger] cur[j],
            ) by {
                if j < prev.len() {
                    assert(cur[j] == prev[j]);
                } else {
                    assert(cur[j] == seg[j - prev.len()]);
                }
            }
        }
    }

    /// Every move a jump-piece generator yields is fit to try and legal.
    pub proof fn lemma_jump_piece_props(
        self,
        pt: PieceType,
        offs: Seq<Offset>,
        checked: bool,
        n: int,
    )
        requires
            self.wf(),
            n <= self.placement().matching_positions(
                Piece { side: self.current_move, piece_type: pt },
            ).len(),
        ensures
            forall|k: int|
                0 <= k < self.jump_piece_moves(pt, offs, checked, n).len() ==> self.move_props(
                    #[trigger] self.jump_piece_moves(pt, offs, checked, n)[k],
                    checked,
                ),
        decreases n,
    {
        let positions = self.placement().matching_positions(
            Piece { side: self.current_move, piece_type: pt },
        );
        if n > 0 {
            self.lemma_jump_piece_props(pt, offs, checked, n - 1);
            self.placement().lemma_matching_positions_valid(
                Piece { side: self.current_move, piece_type: pt },
            );
            let pos = positions[n - 1];
            let cands = self.jump_candidates(pos, offs, offs.len() as int);
            self.lemma_jump_candidates_in_bounds(pos, offs, offs.len() as int);
            self.lemma_allowed_simple_props(pos, cands, checked, cands.len() as int);
            let prev = self.jump_piece_moves(pt, offs, checked, n - 1);
            let seg = self.allowed_simple_moves(pos, cands, checked, cands.len() as int);
            let cur = self.jump_piece_moves(pt, offs, checked, n);
            assert forall|k: int| 0 <= k < cur.len() implies self.move_props(
                #[trigger] cur[k],
                checked,
            ) by {
                if k < prev.len() {
                    assert(cur[k] == prev[k]);
                } else {
                    assert(cur[k] == seg[k - prev.len()]);
                }
            }
        }
    }

    /// Every move a sliding-piece generator yields is fit to try and legal.
    pub proof fn lemma_slide_piece_props(
        self,
        pt: PieceType,
        dirs: Seq<Offset>,
        checked: bool,
        n: int,
    )
        requires
            self.wf(),
            n <= self.placement().matching_positions(
                Piece { side: self.current_move, piece_type: pt },
            ).len(),
            forall|j: int|
                0 <= j < dirs.len() ==> ((#[trigger] dirs[j]).file != 0 || dirs[j].rank != 0),
        ensures
            forall|k: int|
                0 <= k < self.slide_piece_moves(pt, dirs, checked, n).len() ==> self.move_props(
                    #[trigger] self.slide_piece_moves(pt, dirs, checked, n)[k],
                    checked,
                ),
        decreases n,
    {
        let positions = self.placement().matching_positions(
            Piece { side: self.current_move, piece_type: pt },
        );
        if n > 0 {
            self.lemma_slide_piece_props(pt, dirs, checked, n - 1);
            self.placement().lemma_matching_positions_valid(
                Piece { side: self.current_move, piece_type: pt },
            );
            let pos = positions[n - 1];
            let cands = self.slide_candidates(pos, dirs, dirs.len() as int);
            self.lemma_slide_candidates_in_bounds(pos, dirs, dirs.len() as int);
            self.lemma_allowed_simple_props(pos, cands, checked, cands.len() as int);
            let prev = self.slide_piece_moves(pt, dirs, checked, n - 1);
            let seg = self.allowed_simple_moves(pos, cands, checked, cands.len() as int);
            let cur = self.slide_piece_moves(pt, dirs, checked, n);
            assert forall|k: int| 0 <= k < cur.len() implies self.move_props(
                #[trigger] cur[k],
                checked,
            ) by {
                if k < prev.len() {
                    assert(cur[k] == prev[k]);
                } else {
                    assert(cur[k] == seg[k - prev.len()]);
                }
            }
        }
    }

    /// Every pawn move of any phase is fit to try and legal.
    pub proof fn lemma_pawn_phase_props(self, checked: bool, n: int)
        requires
            self.wf(),
            n <= self.pawn_positions().len(),
        ensures
            forall|k: int|
                0 <= k < self.pawn_single_moves(checked, n).len() ==> self.move_props(
                    #[trigger] self.pawn_single_moves(checked, n)[k],
                    checked,
                ),
            forall|k: int|
                0 <= k < self.pawn_double_moves(checked, n).len() ==> self.move_props(
                    #[trigger] self.pawn_double_moves(checked, n)[k],
                    checked,
                ),
            forall|k: int, df: i8|
                0 <= k < self.pawn_capture_moves(df, checked, n).len() ==> self.move_props(
                    #[trigger] self.pawn_capture_moves(df, checked, n)[k],
                    checked,
                ),
            forall|k: int, df: i8|
                0 <= k < self.pawn_ep_moves(df, checked, n).len() ==> self.move_props(
                    #[trigger] self.pawn_ep_moves(df, checked, n)[k],
                    checked,
                ),
        decreases n,
    {
        let p = self.placement();
        let pawn = Piece { side: self.current_move, piece_type: PieceType::Pawn };
        if n > 0 {
            self.lemma_pawn_phase_props(checked, n - 1);
            p.lemma_matching_positions_valid(pawn);
            let pos = self.pawn_positions()[n - 1];
            assert forall|k: int|
                0 <= k < self.pawn_single_moves(checked, n).len() implies self.move_props(
                #[trigger] self.pawn_single_moves(checked, n)[k],
                checked,
            ) by {
                let prev = self.pawn_single_moves(checked, n - 1);
                let cur = self.pawn_single_moves(checked, n);
                if k < prev.len() {
                    assert(cur[k] == prev[k]);
                } else {
                    assert(cur[k] == self.pawn_single_contribution(pos, checked)[k - prev.len()]);
                }
            }
            assert forall|k: int|
                0 <= k < self.pawn_double_moves(checked, n).len() implies self.move_props(
                #[trigger] self.pawn_double_moves(checked, n)[k],
                checked,
            ) by {
                let prev = self.pawn_double_moves(checked, n - 1);
                let cur = self.pawn_double_moves(checked, n);
                if k < prev.len() {
                    assert(cur[k] == prev[k]);
                } else {
                    assert(cur[k] == self.pawn_double_contribution(pos, checked)[k - prev.len()]);
                }
            }
            assert forall|k: int, df: i8|
                0 <= k < self.pawn_capture_moves(df, checked, n).len() implies self.move_props(
                #[trigger] self.pawn_capture_moves(df, checked, n)[k],
                checked,
            ) by {
                let prev = self.pawn_capture_moves(df, checked, n - 1);
                let cur = self.pawn_capture_moves(df, checked, n);
                if k < prev.len() {
                    assert(cur[k] == prev[k]);
                } else {
                    assert(cur[k] == self.pawn_capture_contribution(pos, df, checked)[k
                        - prev.len()]);
                }
            }
            assert forall|k: int, df: i8|
                0 <= k < self.pawn_ep_moves(df, checked, n).len() implies self.move_props(
                #[trigger] self.pawn_ep_moves(df, checked, n)[k],
                checked,
            ) by {
                let prev = self.pawn_ep_moves(df, checked, n - 1);
                let cur = self.pawn_ep_moves(df, checked, n);
                if k < prev.len() {
                    assert(cur[k] == prev[k]);
                } else {
                    match p.step(pos, Offset { file: df, rank: self.pawn_dir() }) {
                        Some(to) => {
                            p.lemma_row_in_bounds(pos, to.file);
                        },
                        None => {},
                    }
                    assert(cur[k] == self.pawn_ep_contribution(pos, df, checked)[k - prev.len()]);
                }
            }
        }
    }

    /// Every pawn move of the full pawn list is fit to try and legal.
    pub proof fn lemma_pawn_move_seq_props(self, checked: bool)
        requires
            self.wf(),
        ensures
            forall|k: int|
                0 <= k < self.pawn_move_seq(checked).len() ==> self.move_props(
                    #[trigger] self.pawn_move_seq(checked)[k],
                    checked,
                ),
    {
        let n = self.pawn_positions().len() as int;
        self.lemma_pawn_phase_props(checked, n);
        let s1 = self.pawn_single_moves(checked, n);
        let s2 = self.pawn_double_moves(checked, n);
        let s3 = self.pawn_capture_moves(-1i8, checked, n);
        let s4 = self.pawn_capture_moves(1i8, checked, n);
        let s5 = self.pawn_ep_moves(-1i8, checked, n);
        let s6 = self.pawn_ep_moves(1i8, checked, n);
        let ms = self.pawn_move_seq(checked);
        let l1 = s1.len() as int;
        let l2 = l1 + s2.len();
        let l3 = l2 + s3.len();
        let l4 = l3 + s4.len();
        let l5 = l4 + s5.len();
        assert forall|k: int| 0 <= k < ms.len() implies self.move_props(
            #[trigger] ms[k],
            checked,
        ) by {
            if k < l1 {
                assert(ms[k] == s1[k]);
            } else if k < l2 {
                assert(ms[k] == s2[k - l1]);
            } else if k < l3 {
                assert(ms[k] == s3[k - l2]);
            } else if k < l4 {
                assert(ms[k] == s4[k - l3]);
            } else if k < l5 {
                assert(ms[k] == s5[k - l4]);
            } else {
                assert(ms[k] == s6[k - l5]);
            }
        }
    }

    /// Every castling move the castling list holds is fit to try and legal.
    pub proof fn lemma_castle_move_seq_props(self, checked: bool)
        requires
            self.wf(),
            self.spec_right(self.current_move, CastlingDirection::Queenside)
                ==> self.standard_shape(),
            self.spec_right(self.current_move, CastlingDirection::Kingside)
                ==> self.standard_shape(),
        ensures
            forall|k: int|
                0 <= k < self.castle_move_seq(checked).len() ==> self.move_props(
                    #[trigger] self.castle_move_seq(checked)[k],
                    checked,
                ),
    {
    }

    /// Every move `move_seq` lists is fit to try and accepted by the
    /// legality oracle.
    pub proof fn lemma_move_seq_props(self, checked: bool)
        requires
            self.wf(),
            self.spec_right(self.current_move, CastlingDirection::Queenside)
                ==> self.standard_shape(),
            self.spec_right(self.current_move, CastlingDirection::Kingside)
                ==> self.standard_shape(),
        ensures
            forall|k: int|
                0 <= k < self.move_seq(checked).len() ==> self.move_props(
                    #[trigger] self.move_seq(checked)[k],
                    checked,
                ),
    {
        let p = self.placement();
        self.lemma_pawn_move_seq_props(checked);
        self.lemma_castle_move_seq_props(checked);
        self.lemma_jump_piece_props(
            PieceType::Knight,
            model::knight_jumps(),
            checked,
            p.matching_positions(
                Piece { side: self.current_move, piece_type: PieceType::Knight },
            ).len() as int,
        );
        self.lemma_jump_piece_props(
            PieceType::King,
            model::king_steps(),
            checked,
            p.matching_positions(
                Piece { side: self.current_move, piece_type: PieceType::King },
            ).len() as int,
        );
        assert forall|j: int| 0 <= j < 4 implies ((#[trigger] model::rook_dirs()[j]).file != 0
            || model::rook_dirs()[j].rank != 0) by {
            if j == 0 {
            } else if j == 1 {
            } else if j == 2 {
            } else {
            }
        }
        assert forall|j: int| 0 <= j < 4 implies ((#[trigger] model::bishop_dirs()[j]).file != 0
            || model::bishop_dirs()[j].rank != 0) by {
            if j == 0 {
            } else if j == 1 {
            } else if j == 2 {
            } else {
            }
        }
        assert forall|j: int| 0 <= j < 8 implies ((#[trigger] model::queen_dirs()[j]).file != 0
            || model::queen_dirs()[j].rank != 0) by {
            if j == 0 {
            } else if j == 1 {
            } else if j == 2 {
            } else if j == 3 {
            } else if j == 4 {
            } else if j == 5 {
            } else if j == 6 {
            } else {
            }
        }
        self.lemma_slide_piece_props(
            PieceType::Bishop,
            model::bishop_dirs(),
            checked,
            p.matching_positions(
                Piece { side: self.current_move, piece_type: PieceType::Bishop },
            ).len() as int,
        );
        self.lemma_slide_piece_props(
            PieceType::Rook,
            model::rook_dirs(),
            checked,
            p.matching_positions(
                Piece { side: self.current_move, piece_type: PieceType::Rook },
            ).len() as int,
        );
        self.lemma_slide_piece_props(
            PieceType::Queen,
            model::queen_dirs(),
            checked,
            p.matching_positions(
                Piece { side: self.current_move, piece_type: PieceType::Queen },
            ).len() as int,
        );
        let s1 = self.pawn_move_seq(checked);
        let s2 = self.knight_move_seq(checked);
        let s3 = self.bishop_move_seq(checked);
        let s4 = self.rook_move_seq(checked);
        let s5 = self.queen_move_seq(checked);
        let s6 = self.king_move_seq(checked);
        let s7 = self.castle_move_seq(checked);
        let ms = self.move_seq(checked);
        let l1 = s1.len() as int;
        let l2 = l1 + s2.len();
        let l3 = l2 + s3.len();
        let l4 = l3 + s4.len();
        let l5 = l4 + s5.len();
        let l6 = l5 + s6.len();
        assert forall|k: int| 0 <= k < ms.len() implies self.move_props(
            #[trigger] ms[k],
            checked,
        ) by {
            if k < l1 {
                assert(ms[k] == s1[k]);
            } else if k < l2 {
                assert(ms[k] == s2[k - l1]);
            } else if k < l3 {
                assert(ms[k] == s3[k - l2]);
            } else if k < l4 {
                assert(ms[k] == s4[k - l3]);
            } else if k < l5 {
                assert(ms[k] == s5[k - l4]);
            } else if k < l6 {
                assert(ms[k] == s6[k - l5]);
            } else {
                assert(ms[k] == s7[k - l6]);
            }
        }
    }

    /// Generates the list of moves that can be made from this position.
    /// With `checked` the list holds exactly the legal moves; without it,
    /// self-check is not tested, as performance-sensitive callers ask.
    pub fn generate_moves(&self, checked: bool) -> (r: Result<Vec<ChessMove>, &'static str>)
        requires
            self.wf(),
            self.spec_right(self.current_move, CastlingDirection::Queenside)
                ==> self.standard_shape(),
            self.spec_right(self.current_move, CastlingDirection::Kingside)
                ==> self.standard_shape(),
        ensures
            r matches Ok(v) && v@ == self.move_seq(checked),
    {
        let mut moves = match self.generate_pawn_moves(checked) {
            Ok(v) => v,
            Err(e) => {
                return Err(e);
            },
        };
        let mut knight_moves = match self.generate_knight_moves(checked) {
            Ok(v) => v,
            Err(e) => {
                return Err(e);
            },
        };
        moves.append(&mut knight_moves);
        let mut bishop_moves = match self.generate_bishop_moves(checked) {
            Ok(v) => v,
            Err(e) => {
                return Err(e);
            },
        };
        moves.append(&mut bishop_moves);
        let mut rook_moves = match self.generate_rook_moves(checked) {
            Ok(v) => v,
            Err(e) => {
                return Err(e);
            },
        };
        moves.append(&mut rook_moves);
        let mut queen_moves = match self.generate_queen_moves(checked) {
            Ok(v) => v,
            Err(e) => {
                return Err(e);
            },
        };
        moves.append(&mut queen_moves);
        let mut king_moves = match self.generate_king_moves(checked) {
            Ok(v) => v,
            Err(e) => {
                return Err(e);
            },
        };
        moves.append(&mut king_moves);
        let mut castling_moves = match self.generate_castling_moves(checked) {
            Ok(v) => v,
            Err(e) => {
                return Err(e);
            },
        };
        moves.append(&mut castling_moves);
        Ok(moves)
    }

    /// Generates the boards that the moves available from this position
    /// lead to, in the same order as [`Board::generate_moves`]; the board
    /// itself is never changed.
    pub fn generate_moved_boards(&self, checked: bool) -> (r: Result<Vec<Board>, &'static str>)
        requires
            self.wf(),
            self.spec_right(self.current_move, CastlingDirection::Queenside)
                ==> self.standard_shape(),
            self.spec_right(self.current_move, CastlingDirection::Kingside)
                ==> self.standard_shape(),
        ensures
            r matches Ok(v) && v@.len() == self.move_seq(checked).len() && (forall|i: int|
                0 <= i < v@.len() ==> is_after_move(
                    *self,
                    self.move_seq(checked)[i],
                    #[trigger] v@[i],
                ) && v@[i].wf()),
    {
        let moves = match self.generate_moves(checked) {
            Ok(v) => v,
            Err(e) => {
                return Err(e);
            },
        };
        proof {
            self.lemma_move_seq_props(checked);
        }

        let mut boards: Vec<Board> = Vec::new();
        let mut i: usize = 0;
        while i < moves.len()
            invariant
                self.wf(),
                moves@ == self.move_seq(checked),
                forall|k: int|
                    0 <= k < moves@.len() ==> self.move_props(#[trigger] moves@[k], checked),
                i <= moves@.len(),
                boards@.len() == i,
                forall|k: int|
                    0 <= k < i ==> is_after_move(*self, moves@[k], #[trigger] boards@[k])
                        && boards@[k].wf(),
            decreases moves@.len() - i,
        {
            match self.trial_move(moves[i], checked) {
                Ok(b) => {
                    boards.push(b);
                },
                Err(_) => {
                    proof {
                        assert(false);
                    }
                },
            }
            i = i + 1;
        }
        Ok(boards)
    }

    /// The finished-game result of this position: checkmate against the
    /// side to move when it has no legal move and its king is attacked, a
    /// draw when it has no legal move and no king attacked, and nothing
    /// while legal moves remain.
    pub open spec fn spec_game_result(self) -> Option<ChessResult> {
        if self.move_seq(true).len() == 0 {
            if self.placement().in_check() {
                Some(ChessResult::Checkmate(self.current_move))
            } else {
                Some(ChessResult::Draw)
            }
        } else {
            None
        }
    }

    /// The terminal-detection law: a position whose side to move has no
    /// legal move is checkmate against that side exactly when its king is
    /// attacked, and a draw otherwise; while legal moves remain there is
    /// no result.
    pub proof fn lemma_terminal_detection(self)
        ensures
            (self.move_seq(true).len() == 0 && self.placement().in_check())
                ==> self.spec_game_result() == Some(ChessResult::Checkmate(self.current_move)),
            (self.move_seq(true).len() == 0 && !self.placement().in_check())
                ==> self.spec_game_result() == Some(ChessResult::Draw),
            self.move_seq(true).len() != 0 ==> self.spec_game_result() is None,
    {
    }

    /// Returns whether the game has ended, and with which result.
    pub fn get_game_result(&self) -> (r: Result<Option<ChessResult>, &'static str>)
        requires
            self.wf(),
            self.spec_right(self.current_move, CastlingDirection::Queenside)
                ==> self.standard_shape(),
            self.spec_right(self.current_move, CastlingDirection::Kingside)
                ==> self.standard_shape(),
        ensures
            r == Ok::<_, &'static str>(self.spec_game_result()),
    {
        let moves = match self.generate_moves(true) {
            Ok(v) => v,
            Err(e) => {
                return Err(e);
            },
        };
        if moves.len() == 0 {
            let threatened = match self.check_king_threat() {
                Ok(b) => b,
                Err(e) => {
                    return Err(e);
                },
            };
            if threatened {
                Ok(Some(ChessResult::Checkmate(self.get_current_side())))
            } else {
                Ok(Some(ChessResult::Draw))
            }
        } else {
            Ok(None)
        }
    }

    /// Validates a candidate coordinate against this board.
    pub fn check_square(&self, square: UncheckedSquare) -> (r: Result<Square, InvalidSquareError>)
        ensures
            r matches Ok(sq) ==> sq == square.as_square() && self.placement().in_bounds(sq),
            self.placement().in_bounds(square.as_square()) <==> r is Ok,
    {
        square.check_with_board(self)
    }

    /// Applies an offset to a square, rejecting results that leave the
    /// board on any side.
    pub fn add_offset_to_position(&self, pos: Square, offset: Offset) -> (r: Result<
        Square,
        InvalidOffsetError,
    >)
        requires
            self.wf(),
        ensures
            r matches Ok(sq) ==> self.placement().step(pos, offset) == Some(sq),
            r is Ok <==> self.placement().step(pos, offset) is Some,
            r matches Err(InvalidOffsetError::LessThanZero(o, off)) ==> off == offset && (
            pos.rank + offset.rank < 0 || pos.file + offset.file < 0) && o == (if pos.rank
                + offset.rank < 0 {
                if pos.file + offset.file < 0 {
                    Orientation::Both
                } else {
                    Orientation::Rank
                }
            } else {
                Orientation::File
            }),
            r matches Err(InvalidOffsetError::InvalidSquare(_)) ==> pos.rank + offset.rank >= 0
                && pos.file + offset.file >= 0,
    {
        let new_rank: i32 = (pos.rank as i32) + (offset.rank as i32);
        let new_file: i32 = (pos.file as i32) + (offset.file as i32);

        if new_rank < 0 {
            if new_file < 0 {
                Err(InvalidOffsetError::LessThanZero(Orientation::Both, offset))
            } else {
                Err(InvalidOffsetError::LessThanZero(Orientation::Rank, offset))
            }
        } else if new_file < 0 {
            Err(InvalidOffsetError::LessThanZero(Orientation::File, offset))
        } else if new_rank > 255 {
            Err(InvalidOffsetError::InvalidSquare(InvalidSquareError::OutOfBounds(
                Orientation::Rank,
                UncheckedSquare { rank: 255, file: if new_file > 255 { 255 } else { new_file as u8 } },
            )))
        } else if new_file > 255 {
            Err(InvalidOffsetError::InvalidSquare(InvalidSquareError::OutOfBounds(
                Orientation::File,
                UncheckedSquare { rank: new_rank as u8, file: 255 },
            )))
        } else {
            match self.check_square(
                UncheckedSquare { rank: new_rank as u8, file: new_file as u8 },
            ) {
                Ok(sq) => Ok(sq),
                Err(e) => Err(InvalidOffsetError::InvalidSquare(e)),
            }
        }
    }
}

} // verus!
