use vstd::prelude::*;

use crate::board::castling::CastlingDirection;
use crate::board::square::Square;

verus! {

/// A move descriptor.
#[derive(Copy, Clone, Debug, PartialEq, Eq, Structural)]
pub enum ChessMove {
    /// A move of one piece from a square to another square, capturing
    /// whatever stands there.
    SimpleMove(Square, Square),
    /// A move from a square to a different square that also captures a
    /// third square: the pawn taken en passant.
    EnPassant(Square, Square, Square),
    /// A castle in the given direction.
    Castling(CastlingDirection),
    /// A move that changes no piece, but flips the side to move; used for
    /// internal "what if it were the opponent's turn" probes.
    NullMove,
}

/// The board file a coordinate letter denotes: `a` is file 0, and so on
/// through the lower-case alphabet.
pub open spec fn spec_file_of_char(c: char) -> Option<u8> {
    if 'a' as u32 <= c as u32 && c as u32 <= 'z' as u32 {
        Some((c as u32 - 'a' as u32) as u8)
    } else {
        None
    }
}

/// The board rank a coordinate digit denotes: `1` is rank 0, up to `9`.
pub open spec fn spec_rank_of_char(c: char) -> Option<u8> {
    if '1' as u32 <= c as u32 && c as u32 <= '9' as u32 {
        Some((c as u32 - '1' as u32) as u8)
    } else {
        None
    }
}

/// Whether a string is the kingside-castling token `O-O`.
pub open spec fn is_kingside_token(s: Seq<char>) -> bool {
    s.len() == 3 && s[0] == 'O' && s[1] == '-' && s[2] == 'O'
}

/// Whether a string is the queenside-castling token `O-O-O`.
pub open spec fn is_queenside_token(s: Seq<char>) -> bool {
    s.len() == 5 && s[0] == 'O' && s[1] == '-' && s[2] == 'O' && s[3] == '-' && s[4] == 'O'
}

/// The simple move that the first four characters of a coordinate string
/// denote, if they are two file-letter/rank-digit pairs.
pub open spec fn spec_parsed_simple(s: Seq<char>) -> Option<ChessMove> {
    if s.len() >= 4 {
        match (spec_file_of_char(s[0]), spec_rank_of_char(s[1]), spec_file_of_char(s[2]),
        spec_rank_of_char(s[3])) {
            (Some(f1), Some(r1), Some(f2), Some(r2)) => Some(
                ChessMove::SimpleMove(
                    Square { file: f1, rank: r1 },
                    Square { file: f2, rank: r2 },
                ),
            ),
            _ => None,
        }
    } else {
        None
    }
}

/// The file a coordinate letter denotes.
fn file_from_char(ch: char) -> (r: Result<u8, &'static str>)
    ensures
        match spec_file_of_char(ch) {
            Some(f) => r == Ok::<u8, &'static str>(f),
            None => r is Err,
        },
{
    let v = ch as u32;
    if v < 'a' as u32 || v > 'z' as u32 {
        Err("Invalid file character")
    } else {
        Ok((v - 'a' as u32) as u8)
    }
}

/// The rank a coordinate digit denotes.
fn rank_from_char(ch: char) -> (r: Result<u8, &'static str>)
    ensures
        match spec_rank_of_char(ch) {
            Some(f) => r == Ok::<u8, &'static str>(f),
            None => r is Err,
        },
{
    let v = ch as u32;
    if v < '1' as u32 || v > '9' as u32 {
        Err("Invalid rank character")
    } else {
        Ok((v - '1' as u32) as u8)
    }
}

impl ChessMove {
    /// Parses four-character coordinate move text such as `e2e4`, or the
    /// literal castling tokens `O-O` and `O-O-O`. Anything after the fourth
    /// coordinate character is ignored.
    ///
    /// En passant is never expressed in this short form: it is derived
    /// purely from board state, so this returns a simple move for such
    /// squares.
    pub fn parse(value: &str) -> (r: Result<ChessMove, &'static str>)
        ensures
            is_kingside_token(value@) ==> r == Ok::<ChessMove, &'static str>(
                ChessMove::Castling(CastlingDirection::Kingside),
            ),
            is_queenside_token(value@) ==> r == Ok::<ChessMove, &'static str>(
                ChessMove::Castling(CastlingDirection::Queenside),
            ),
            !is_kingside_token(value@) && !is_queenside_token(value@) ==> match spec_parsed_simple(
                value@,
            ) {
                Some(m) => r == Ok::<ChessMove, &'static str>(m),
                None => r is Err,
            },
    {
        let n = value.unicode_len();
        if n == 3 && value.get_char(0) == 'O' && value.get_char(1) == '-' && value.get_char(2)
            == 'O' {
            return Ok(ChessMove::Castling(CastlingDirection::Kingside));
        }
        if n == 5 && value.get_char(0) == 'O' && value.get_char(1) == '-' && value.get_char(2)
            == 'O' && value.get_char(3) == '-' && value.get_char(4) == 'O' {
            return Ok(ChessMove::Castling(CastlingDirection::Queenside));
        }
        if n < 4 {
            return Err("Invalid value, too short");
        }
        let f1 = match file_from_char(value.get_char(0)) {
            Ok(v) => v,
            Err(e) => {
                return Err(e);
            },
        };
        let r1 = match rank_from_char(value.get_char(1)) {
            Ok(v) => v,
            Err(e) => {
                return Err(e);
            },
        };
        let f2 = match file_from_char(value.get_char(2)) {
            Ok(v) => v,
            Err(e) => {
                return Err(e);
            },
        };
        let r2 = match rank_from_char(value.get_char(3)) {
            Ok(v) => v,
            Err(e) => {
                return Err(e);
            },
        };
        Ok(
            ChessMove::SimpleMove(
                Square { file: f1, rank: r1 },
                Square { file: f2, rank: r2 },
            ),
        )
    }
}

} // verus!
