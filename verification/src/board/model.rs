use vstd::prelude::*;

use crate::board::piece::{Piece, PieceType, Side};
use crate::board::square::Square;
use crate::board::Offset;

verus! {

/// The mathematical model of a board arrangement: the squares in rank-major
/// order, the board width, and the side to move. Ray casting, bounds
/// checking and check detection are defined over this model, so that they
/// can also be stated of hypothetical arrangements that no `Board` value
/// holds.
pub struct Placement {
    pub squares: Seq<Option<Piece>>,
    pub width: int,
    pub turn: Side,
}

impl Placement {
    /// A well-formed arrangement: at least one file, whole ranks only, and
    /// few enough ranks that every rank number fits in a `u8`.
    pub open spec fn wf(self) -> bool {
        &&& 1 <= self.width <= 255
        &&& self.squares.len() as int % self.width == 0
        &&& self.squares.len() as int <= 256 * self.width
    }

    /// The linear index of a square: rank-major order, rank 0 at the bottom.
    pub open spec fn index_of(self, s: Square) -> int {
        s.rank * self.width + s.file
    }

    /// Whether a square lies on the board.
    pub open spec fn in_bounds(self, s: Square) -> bool {
        s.file < self.width && self.index_of(s) < self.squares.len()
    }

    /// The contents of a square.
    pub open spec fn piece_at(self, s: Square) -> Option<Piece> {
        self.squares[self.index_of(s)]
    }

    /// Whether a square holds a piece of the side to move.
    pub open spec fn own_piece_at(self, s: Square) -> bool {
        self.piece_at(s) matches Some(p) && p.side == self.turn
    }

    /// Whether a square holds a piece of the opposing side.
    pub open spec fn enemy_piece_at(self, s: Square) -> bool {
        self.piece_at(s) matches Some(p) && p.side == self.turn.opposite()
    }

    /// The square reached from a given index.
    pub open spec fn square_of(self, i: int) -> Square {
        Square { rank: (i / self.width) as u8, file: (i % self.width) as u8 }
    }

    /// The same arrangement with one square replaced.
    pub open spec fn with(self, s: Square, v: Option<Piece>) -> Placement {
        Placement { squares: self.squares.update(self.index_of(s), v), ..self }
    }

    /// One step from `pos` by `off`, if the result still lies on the board.
    pub open spec fn step(self, pos: Square, off: Offset) -> Option<Square> {
        let nr = pos.rank + off.rank;
        let nf = pos.file + off.file;
        if 0 <= nr < 256 && 0 <= nf < 256 && nf < self.width && nr * self.width + nf
            < self.squares.len() {
            Some(Square { rank: nr as u8, file: nf as u8 })
        } else {
            None
        }
    }

    /// An upper bound on how many steps of `off` remain before the walk
    /// leaves the board; used as a termination measure for ray casting.
    pub open spec fn ray_fuel(self, pos: Square, off: Offset) -> int {
        if off.file > 0 {
            256 - pos.file
        } else if off.file < 0 {
            pos.file + 1
        } else if off.rank > 0 {
            256 - pos.rank
        } else {
            pos.rank + 1
        }
    }

    /// Where a ray cast from `pos` in direction `off` stops: the last empty
    /// square before a blocker, or the blocker's square itself when it holds
    /// an opposing piece and `can_take` is set. A ray whose offset is zero
    /// in both axes stops where it starts only if the origin's neighbour
    /// blocks it, so callers pass a nonzero offset.
    pub open spec fn ray_end(self, pos: Square, off: Offset, can_take: bool) -> Square
        decreases self.ray_fuel(pos, off),
            when off.file != 0 || off.rank != 0
    {
        match self.step(pos, off) {
            None => pos,
            Some(next) => match self.piece_at(next) {
                Some(p) => if p.side == self.turn {
                    pos
                } else if can_take {
                    next
                } else {
                    pos
                },
                None => self.ray_end(next, off, can_take),
            },
        }
    }

    /// Whether repeatedly stepping from `start` by `off` reaches `dest`
    /// without leaving the board.
    pub open spec fn reaches(self, start: Square, dest: Square, off: Offset) -> bool
        decreases self.ray_fuel(start, off),
            when off.file != 0 || off.rank != 0
    {
        if start == dest {
            true
        } else {
            match self.step(start, off) {
                None => false,
                Some(next) => self.reaches(next, dest, off),
            }
        }
    }

    /// Every square strictly after `start`, stepping by `off`, up to and
    /// including `dest`. Meaningful when `dest` is reachable from `start`.
    pub open spec fn span(self, start: Square, dest: Square, off: Offset) -> Seq<Square>
        decreases self.ray_fuel(start, off),
            when off.file != 0 || off.rank != 0
    {
        if start == dest {
            Seq::empty()
        } else {
            match self.step(start, off) {
                None => Seq::empty(),
                Some(next) => seq![next] + self.span(next, dest, off),
            }
        }
    }

    /// The squares that hold the given piece, up to the first `n` indices,
    /// in index order.
    pub open spec fn matching_up_to(self, piece: Piece, n: int) -> Seq<Square>
        decreases n,
    {
        if n <= 0 {
            Seq::empty()
        } else {
            let prefix = self.matching_up_to(piece, n - 1);
            if self.squares[n - 1] == Some(piece) {
                prefix.push(self.square_of(n - 1))
            } else {
                prefix
            }
        }
    }

    /// The squares that hold the given piece, in index order.
    pub open spec fn matching_positions(self, piece: Piece) -> Seq<Square> {
        self.matching_up_to(piece, self.squares.len() as int)
    }

    /// On a well-formed arrangement, `index_of` inverts `square_of`.
    pub proof fn lemma_index_inverse(self, s: Square)
        requires
            self.wf(),
            self.in_bounds(s),
        ensures
            self.square_of(self.index_of(s)) == s,
            0 <= self.index_of(s) < self.squares.len(),
    {
        vstd::arithmetic::mul::lemma_mul_nonnegative(s.rank as int, self.width);
        vstd::arithmetic::div_mod::lemma_fundamental_div_mod_converse(
            self.index_of(s),
            self.width,
            s.rank as int,
            s.file as int,
        );
    }

    /// Stepping consumes fuel: the termination measure of ray walks.
    pub proof fn lemma_step_fuel(self, pos: Square, next: Square, off: Offset)
        requires
            off.file != 0 || off.rank != 0,
            self.step(pos, off) == Some(next),
        ensures
            0 <= self.ray_fuel(next, off) < self.ray_fuel(pos, off),
    {
    }

    /// A ray's end square is reachable from its origin.
    pub proof fn lemma_ray_reaches_end(self, pos: Square, off: Offset, can_take: bool)
        requires
            self.wf(),
            self.in_bounds(pos),
            off.file != 0 || off.rank != 0,
        ensures
            self.reaches(pos, self.ray_end(pos, off, can_take), off),
        decreases self.ray_fuel(pos, off),
    {
        let dest = self.ray_end(pos, off, can_take);
        if pos == dest {
            assert(self.reaches(pos, dest, off));
        } else {
            match self.step(pos, off) {
                None => {
                    assert(dest == pos);
                },
                Some(next) => {
                    self.lemma_step_fuel(pos, next, off);
                    match self.piece_at(next) {
                        Some(p) => {
                            assert(dest == next);
                            assert(self.reaches(next, dest, off));
                        },
                        None => {
                            self.lemma_ray_reaches_end(next, off, can_take);
                            assert(dest == self.ray_end(next, off, can_take));
                        },
                    }
                },
            }
        }
    }

    /// A step stays on the board.
    pub proof fn lemma_step_in_bounds(self, pos: Square, next: Square, off: Offset)
        requires
            self.step(pos, off) == Some(next),
        ensures
            self.in_bounds(next),
    {
    }

    /// A square on the board stays on the board when only its file moves.
    pub proof fn lemma_row_in_bounds(self, s: Square, f: u8)
        requires
            self.wf(),
            self.in_bounds(s),
            f < self.width,
        ensures
            self.in_bounds(Square { rank: s.rank, file: f }),
    {
        let w = self.width;
        let len = self.squares.len() as int;
        let k = len / w;
        vstd::arithmetic::div_mod::lemma_fundamental_div_mod(len, w);
        assert(k * w == w * k) by (nonlinear_arith);
        // len is a whole number of ranks, so a square's whole rank fits.
        if s.rank as int >= k {
            vstd::arithmetic::mul::lemma_mul_inequality(k, s.rank as int, w);
            assert(false);
        }
        vstd::arithmetic::mul::lemma_mul_inequality(s.rank as int + 1, k, w);
        assert((s.rank as int + 1) * w == s.rank as int * w + w) by (nonlinear_arith);
    }

    /// The number of ranks of a well-formed arrangement.
    pub open spec fn height(self) -> int {
        self.squares.len() as int / self.width
    }

    /// A rank and file within the board's extent name an on-board square.
    pub proof fn lemma_rank_file_in_bounds(self, rank: int, file: int)
        requires
            self.wf(),
            0 <= rank < self.height(),
            0 <= file < self.width,
        ensures
            self.in_bounds(Square { rank: rank as u8, file: file as u8 }),
            self.height() <= 256,
            self.index_of(Square { rank: rank as u8, file: file as u8 }) == rank * self.width
                + file,
    {
        let w = self.width;
        let len = self.squares.len() as int;
        let h = self.height();
        vstd::arithmetic::div_mod::lemma_fundamental_div_mod(len, w);
        if h > 256 {
            vstd::arithmetic::mul::lemma_mul_inequality(257, h, w);
            assert(257 * w == 256 * w + w) by (nonlinear_arith);
            assert(false);
        }
        vstd::arithmetic::mul::lemma_mul_inequality(rank + 1, h, w);
        assert((rank + 1) * w == rank * w + w) by (nonlinear_arith);
        assert(h * w == w * h) by (nonlinear_arith);
    }

    /// Every square a span lists lies on the board.
    pub proof fn lemma_span_in_bounds(self, start: Square, dest: Square, off: Offset)
        requires
            self.wf(),
            self.in_bounds(start),
            off.file != 0 || off.rank != 0,
        ensures
            forall|i: int|
                0 <= i < self.span(start, dest, off).len() ==> self.in_bounds(
                    #[trigger] self.span(start, dest, off)[i],
                ),
        decreases self.ray_fuel(start, off),
    {
        if start != dest {
            match self.step(start, off) {
                None => {},
                Some(next) => {
                    self.lemma_step_fuel(start, next, off);
                    self.lemma_step_in_bounds(start, next, off);
                    self.lemma_span_in_bounds(next, dest, off);
                    let s = self.span(start, dest, off);
                    let rest = self.span(next, dest, off);
                    assert(s == seq![next] + rest);
                    assert forall|i: int| 0 <= i < s.len() implies self.in_bounds(
                        #[trigger] s[i],
                    ) by {
                        if i == 0 {
                            assert(s[0] == next);
                        } else {
                            assert(s[i] == rest[i - 1]);
                        }
                    }
                },
            }
        }
    }

    /// Membership in the matching-positions prefix: exactly the squares on
    /// the board below index `n` that hold the piece.
    pub proof fn lemma_matching_membership(self, piece: Piece, n: int, s: Square)
        requires
            self.wf(),
            0 <= n <= self.squares.len(),
        ensures
            self.matching_up_to(piece, n).contains(s) <==> (self.in_bounds(s) && self.index_of(s)
                < n && self.piece_at(s) == Some(piece)),
        decreases n,
    {
        if n > 0 {
            let cur = self.matching_up_to(piece, n);
            let prev = self.matching_up_to(piece, n - 1);
            self.lemma_matching_membership(piece, n - 1, s);
            if self.squares[n - 1] == Some(piece) {
                self.lemma_square_of(n - 1);
                let last = self.square_of(n - 1);
                assert(cur == prev.push(last));
                if cur.contains(s) {
                    let j = choose|j: int| 0 <= j < cur.len() && cur[j] == s;
                    if j < prev.len() {
                        assert(prev.contains(s));
                    } else {
                        assert(s == last);
                    }
                }
                if prev.contains(s) {
                    let j = choose|j: int| 0 <= j < prev.len() && prev[j] == s;
                    assert(cur[j] == s);
                    assert(cur.contains(s));
                }
                if s == last {
                    assert(cur[cur.len() - 1] == s);
                    assert(cur.contains(s));
                }
                if self.in_bounds(s) && self.index_of(s) == n - 1 {
                    self.lemma_index_inverse(s);
                    assert(s == last);
                }
            } else {
                assert(cur == prev);
                if self.in_bounds(s) && self.index_of(s) == n - 1 && self.piece_at(s) == Some(
                    piece,
                ) {
                    self.lemma_index_inverse(s);
                    assert(self.piece_at(s) == self.squares[n - 1]);
                    assert(false);
                }
            }
        }
    }

    /// Every listed matching position lies on the board and holds the piece.
    pub proof fn lemma_matching_positions_valid(self, piece: Piece)
        requires
            self.wf(),
        ensures
            forall|j: int|
                0 <= j < self.matching_positions(piece).len()
                    ==> self.in_bounds(#[trigger] self.matching_positions(piece)[j])
                    && self.piece_at(self.matching_positions(piece)[j]) == Some(piece),
    {
        let m = self.matching_positions(piece);
        assert forall|j: int| 0 <= j < m.len() implies self.in_bounds(#[trigger] m[j])
            && self.piece_at(m[j]) == Some(piece) by {
            assert(m.contains(m[j]));
            self.lemma_matching_membership(piece, self.squares.len() as int, m[j]);
        }
    }

    /// On a well-formed arrangement, `square_of` inverts `index_of`.
    pub proof fn lemma_square_of(self, i: int)
        requires
            self.wf(),
            0 <= i < self.squares.len(),
        ensures
            self.square_of(i).rank as int == i / self.width,
            self.square_of(i).file as int == i % self.width,
            self.index_of(self.square_of(i)) == i,
            self.in_bounds(self.square_of(i)),
            self.piece_at(self.square_of(i)) == self.squares[i],
    {
        let w = self.width;
        let q = i / w;
        let r = i % w;
        vstd::arithmetic::div_mod::lemma_fundamental_div_mod(i, w);
        vstd::arithmetic::div_mod::lemma_mod_bound(i, w);
        vstd::arithmetic::div_mod::lemma_div_pos_is_pos(i, w);
        assert(w * q == q * w) by (nonlinear_arith);
        if q >= 256 {
            vstd::arithmetic::mul::lemma_mul_inequality(256, q, w);
            assert(false);
        }
        assert(self.square_of(i).rank as int == q);
        assert(self.square_of(i).file as int == r);
    }
}

/// The eight L-shaped knight jumps, in generation order.
pub open spec fn knight_jumps() -> Seq<Offset> {
    seq![
        Offset { file: -1i8, rank: 2i8 },
        Offset { file: 1i8, rank: 2i8 },
        Offset { file: -2i8, rank: 1i8 },
        Offset { file: 2i8, rank: 1i8 },
        Offset { file: -2i8, rank: -1i8 },
        Offset { file: 2i8, rank: -1i8 },
        Offset { file: -1i8, rank: -2i8 },
        Offset { file: 1i8, rank: -2i8 },
    ]
}

/// The eight unit king steps, in generation order.
pub open spec fn king_steps() -> Seq<Offset> {
    seq![
        Offset { file: 0i8, rank: 1i8 },
        Offset { file: 1i8, rank: 0i8 },
        Offset { file: 0i8, rank: -1i8 },
        Offset { file: -1i8, rank: 0i8 },
        Offset { file: 1i8, rank: 1i8 },
        Offset { file: 1i8, rank: -1i8 },
        Offset { file: -1i8, rank: 1i8 },
        Offset { file: -1i8, rank: -1i8 },
    ]
}

/// The four orthogonal ray directions.
pub open spec fn rook_dirs() -> Seq<Offset> {
    seq![
        Offset { file: 0i8, rank: 1i8 },
        Offset { file: 1i8, rank: 0i8 },
        Offset { file: 0i8, rank: -1i8 },
        Offset { file: -1i8, rank: 0i8 },
    ]
}

/// The four diagonal ray directions.
pub open spec fn bishop_dirs() -> Seq<Offset> {
    seq![
        Offset { file: 1i8, rank: 1i8 },
        Offset { file: 1i8, rank: -1i8 },
        Offset { file: -1i8, rank: 1i8 },
        Offset { file: -1i8, rank: -1i8 },
    ]
}

/// The eight queen ray directions: orthogonal first, then diagonal, in
/// generation order.
pub open spec fn queen_dirs() -> Seq<Offset> {
    seq![
        Offset { file: 0i8, rank: 1i8 },
        Offset { file: 1i8, rank: 0i8 },
        Offset { file: 0i8, rank: -1i8 },
        Offset { file: -1i8, rank: 0i8 },
        Offset { file: 1i8, rank: 1i8 },
        Offset { file: 1i8, rank: -1i8 },
        Offset { file: -1i8, rank: 1i8 },
        Offset { file: -1i8, rank: -1i8 },
    ]
}

/// The two squares, relative to a defending king, from which a pawn of the
/// attacking side would give check: one forward-diagonal pair, mirrored to
/// the attacker's pawn-push direction.
pub open spec fn pawn_checker_offsets(attacker: Side) -> Seq<Offset> {
    let d: int = match attacker {
        Side::White => -1,
        Side::Black => 1,
    };
    seq![Offset { file: 1i8, rank: d as i8 }, Offset { file: -1i8, rank: d as i8 }]
}

impl Placement {
    /// Whether a piece of the opposing side and the given type stands one
    /// `off` step away from `k`.
    pub open spec fn jump_threat(self, k: Square, off: Offset, pt: PieceType) -> bool {
        self.step(k, off) matches Some(s) && self.piece_at(s) == Some(
            Piece { side: self.turn.opposite(), piece_type: pt },
        )
    }

    /// Whether a capturing ray from `k` in direction `off` ends on a piece
    /// of the opposing side and the given type.
    pub open spec fn ray_threat(self, k: Square, off: Offset, pt: PieceType) -> bool {
        self.piece_at(self.ray_end(k, off, true)) == Some(
            Piece { side: self.turn.opposite(), piece_type: pt },
        )
    }

    /// Whether the square `k` is attacked by any opposing piece, scanning
    /// outward with the attacker's own movement geometry: knight jumps,
    /// king adjacency, rook and bishop rays (each also matching a queen),
    /// and the two pawn-checker squares.
    pub open spec fn square_attacked(self, k: Square) -> bool {
        ||| (exists|i: int|
            0 <= i < 8 && self.jump_threat(k, knight_jumps()[i], PieceType::Knight))
        ||| (exists|i: int| 0 <= i < 8 && self.jump_threat(k, king_steps()[i], PieceType::King))
        ||| (exists|i: int|
            0 <= i < 4 && (self.ray_threat(k, rook_dirs()[i], PieceType::Rook)
                || self.ray_threat(k, rook_dirs()[i], PieceType::Queen)))
        ||| (exists|i: int|
            0 <= i < 4 && (self.ray_threat(k, bishop_dirs()[i], PieceType::Bishop)
                || self.ray_threat(k, bishop_dirs()[i], PieceType::Queen)))
        ||| (exists|i: int|
            0 <= i < 2 && self.jump_threat(
                k,
                pawn_checker_offsets(self.turn.opposite())[i],
                PieceType::Pawn,
            ))
    }

    /// Whether some king of the side to move is attacked. A malformed board
    /// may hold zero or several kings of a side; the side is in check when
    /// any of them is attacked.
    pub open spec fn in_check(self) -> bool {
        exists|s: Square|
            self.in_bounds(s) && self.piece_at(s) == Some(
                Piece { side: self.turn, piece_type: PieceType::King },
            ) && #[trigger] self.square_attacked(s)
    }
}

} // verus!
