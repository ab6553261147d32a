use chess_core::board::chess_move::ChessMove;
use chess_core::board::game::ChessResult;
use chess_core::board::piece::{Piece, PieceType, Side};
use chess_core::board::square::Square;
use chess_core::board::castling::CastlingDirection;
use chess_core::board::errors::{InvalidOffsetError, InvalidSquareError, Orientation};
use chess_core::board::Board;
use chess_core::board::square::UncheckedSquare;

#[test]
fn starting_position_has_twenty_legal_moves() {
    let board = Board::default();
    let moves = board.generate_moves(true).unwrap();
    assert_eq!(moves.len(), 20);
}

#[test]
fn applying_moves_never_mutates_the_original() {
    let mut board = Board::default();
    board
        .make_move(ChessMove::parse("e2e4").unwrap(), true)
        .unwrap();
    let snapshot = board.clone();

    let moves = board.generate_moves(true).unwrap();
    for m in &moves {
        let mut trial = board.clone();
        let _ = trial.make_move(m.clone(), true);
    }
    let _ = board.generate_moved_boards(true).unwrap();

    assert_eq!(board.squares, snapshot.squares);
    assert_eq!(board.width, snapshot.width);
    assert_eq!(board.en_passant_target, snapshot.en_passant_target);
    assert_eq!(board.current_move, snapshot.current_move);
    assert_eq!(board.castling_availability, snapshot.castling_availability);
}

#[test]
fn double_push_sets_single_en_passant_target_and_any_other_move_clears_it() {
    let mut board = Board::default();

    board
        .make_move(ChessMove::parse("e2e4").unwrap(), true)
        .unwrap();
    assert_eq!(board.en_passant_target, Some(Square { file: 4, rank: 2 }));

    board
        .make_move(ChessMove::parse("d7d5").unwrap(), true)
        .unwrap();
    assert_eq!(board.en_passant_target, Some(Square { file: 3, rank: 5 }));

    board
        .make_move(ChessMove::parse("g1f3").unwrap(), true)
        .unwrap();
    assert_eq!(board.en_passant_target, None);
}

#[test]
fn king_leaving_home_square_clears_both_rights_for_good() {
    let mut board = Board::default();
    for m in ["e2e4", "e7e5", "e1e2", "d7d6", "e2e1", "d6d5"] {
        board
            .make_move(ChessMove::parse(m).unwrap(), true)
            .unwrap();
    }
    // The king is back on its home square, but the rights stay cleared.
    assert!(!board.get_castling_state(Side::White, CastlingDirection::Kingside));
    assert!(!board.get_castling_state(Side::White, CastlingDirection::Queenside));
    assert!(board.get_castling_state(Side::Black, CastlingDirection::Kingside));
}

#[test]
fn checkmated_position_reports_checkmate_for_side_to_move() {
    let board = Board::from_art(
        "...K...r\n\
         ........\n\
         ...k....\n\
         ........\n\
         ........\n\
         ........\n\
         ........\n\
         ........",
    )
    .unwrap();
    assert_eq!(
        board.get_game_result().unwrap(),
        Some(ChessResult::Checkmate(Side::White))
    );
}

#[test]
fn stalemated_position_reports_draw() {
    let mut board = Board::from_art(
        "k.......\n\
         ........\n\
         .Q......\n\
         ........\n\
         ........\n\
         ........\n\
         ........\n\
         .......K",
    )
    .unwrap();
    board.flip_current_side();
    assert_eq!(board.get_game_result().unwrap(), Some(ChessResult::Draw));
}

#[test]
fn ongoing_position_reports_no_result() {
    let board = Board::default();
    assert_eq!(board.get_game_result().unwrap(), None);
}

#[test]
fn rook_ray_stops_at_the_first_capture() {
    // Empty standard board, white rook at file 3 / rank 3, black pawn at
    // file 3 / rank 6: the rook may go up to and including the pawn's
    // square, but no further.
    let mut board = Board::with_pieces(vec![None; 64], 8);
    board
        .set_piece_at_position(Some(Piece::new(Side::White, PieceType::Rook)), Square {
            file: 3,
            rank: 3,
        })
        .unwrap();
    board
        .set_piece_at_position(Some(Piece::new(Side::Black, PieceType::Pawn)), Square {
            file: 3,
            rank: 6,
        })
        .unwrap();

    let moves = board.generate_moves(true).unwrap();
    let rook_targets: Vec<Square> = moves
        .iter()
        .filter_map(|m| match m {
            ChessMove::SimpleMove(from, to) if *from == (Square { file: 3, rank: 3 }) => {
                Some(*to)
            }
            _ => None,
        })
        .collect();

    for rank in [4, 5, 6] {
        assert!(rook_targets.contains(&Square { file: 3, rank }));
    }
    assert!(!rook_targets.contains(&Square { file: 3, rank: 7 }));
}

#[test]
fn parse_reads_coordinate_moves_and_castling_tokens() {
    assert_eq!(
        ChessMove::parse("e2e4").unwrap(),
        ChessMove::SimpleMove(Square { file: 4, rank: 1 }, Square { file: 4, rank: 3 })
    );
    assert_eq!(
        ChessMove::parse("O-O").unwrap(),
        ChessMove::Castling(CastlingDirection::Kingside)
    );
    assert_eq!(
        ChessMove::parse("O-O-O").unwrap(),
        ChessMove::Castling(CastlingDirection::Queenside)
    );
    assert!(ChessMove::parse("e2").is_err());
    assert!(ChessMove::parse("E2e4").is_err());
    assert!(ChessMove::parse("e0e4").is_err());
    assert!(ChessMove::parse("").is_err());
}

#[test]
fn make_move_rejects_each_illegal_request_with_its_error() {
    let mut board = Board::default();

    // An empty origin square.
    assert_eq!(
        board.make_move(ChessMove::parse("e4e5").unwrap(), true),
        Err("Can't make move, old_pos doesn't have piece")
    );
    // A piece of the side that is not moving.
    assert_eq!(
        board.make_move(ChessMove::parse("e7e5").unwrap(), true),
        Err("Can't make move, piece at old_pos isn't currently moving")
    );
    // A destination the mover already occupies.
    assert_eq!(
        board.make_move(ChessMove::parse("e1d1").unwrap(), true),
        Err("Can't make move, friendly piece exists at new_pos")
    );
    // A castle whose path is blocked.
    assert_eq!(
        board.make_move(ChessMove::Castling(CastlingDirection::Kingside), true),
        Err("Can't castle")
    );

    // A move that would leave the mover's own king attacked.
    let mut pinned = Board::with_pieces(vec![None; 64], 8);
    pinned
        .set_piece_at_position(Some(Piece::new(Side::White, PieceType::King)), Square {
            file: 0,
            rank: 0,
        })
        .unwrap();
    pinned
        .set_piece_at_position(Some(Piece::new(Side::White, PieceType::Rook)), Square {
            file: 0,
            rank: 1,
        })
        .unwrap();
    pinned
        .set_piece_at_position(Some(Piece::new(Side::Black, PieceType::Rook)), Square {
            file: 0,
            rank: 7,
        })
        .unwrap();
    assert_eq!(
        pinned.make_move(
            ChessMove::SimpleMove(Square { file: 0, rank: 1 }, Square { file: 1, rank: 1 }),
            true
        ),
        Err("Can't make move, there's King in check")
    );
}

#[test]
fn failed_moves_leave_the_position_unchanged() {
    // A move whose self-check test fires must leave every component of
    // the position as it was.
    let mut pinned = Board::with_pieces(vec![None; 64], 8);
    pinned
        .set_piece_at_position(Some(Piece::new(Side::White, PieceType::King)), Square {
            file: 0,
            rank: 0,
        })
        .unwrap();
    pinned
        .set_piece_at_position(Some(Piece::new(Side::White, PieceType::Rook)), Square {
            file: 0,
            rank: 1,
        })
        .unwrap();
    pinned
        .set_piece_at_position(Some(Piece::new(Side::Black, PieceType::Rook)), Square {
            file: 0,
            rank: 7,
        })
        .unwrap();
    let snapshot = pinned.clone();

    let attempts = [
        // Exposes the king: rejected by the self-check test.
        ChessMove::SimpleMove(Square { file: 0, rank: 1 }, Square { file: 1, rank: 1 }),
        // Empty origin.
        ChessMove::SimpleMove(Square { file: 4, rank: 4 }, Square { file: 4, rank: 5 }),
        // Opponent's piece at the origin.
        ChessMove::SimpleMove(Square { file: 0, rank: 7 }, Square { file: 0, rank: 6 }),
        // Friendly piece at the destination.
        ChessMove::SimpleMove(Square { file: 0, rank: 0 }, Square { file: 0, rank: 1 }),
        // No castling flag is set.
        ChessMove::Castling(CastlingDirection::Kingside),
    ];
    for mv in attempts {
        assert!(pinned.make_move(mv, true).is_err());
        assert_eq!(pinned.squares, snapshot.squares);
        assert_eq!(pinned.width, snapshot.width);
        assert_eq!(pinned.en_passant_target, snapshot.en_passant_target);
        assert_eq!(pinned.current_move, snapshot.current_move);
        assert_eq!(pinned.castling_availability, snapshot.castling_availability);
    }
}

#[test]
fn castling_out_of_check_is_rejected() {
    // White is in check from the rook on e3; both castling paths are
    // safe, but castling may not be used to escape check.
    let mut board = Board::from_art(
        "....k...\n\
         ........\n\
         ........\n\
         ........\n\
         ........\n\
         ....r...\n\
         ........\n\
         R...K..R",
    )
    .unwrap();
    board.castling_availability = [false, false, true, true];

    assert_eq!(
        board.make_move(ChessMove::Castling(CastlingDirection::Kingside), true),
        Err("Can't castle")
    );
    assert_eq!(
        board.make_move(ChessMove::Castling(CastlingDirection::Queenside), true),
        Err("Can't castle")
    );
    // Without the self-check stage the same castle is mechanically
    // possible, as unchecked generation permits.
    assert!(board
        .make_move(ChessMove::Castling(CastlingDirection::Kingside), false)
        .is_ok());
}

#[test]
fn castling_moves_king_and_rook_when_path_is_clear() {
    let mut board = Board::default();
    for m in ["e2e4", "e7e5", "g1f3", "b8c6", "f1c4", "g8f6"] {
        board
            .make_move(ChessMove::parse(m).unwrap(), true)
            .unwrap();
    }
    board
        .make_move(ChessMove::parse("O-O").unwrap(), true)
        .unwrap();

    assert_eq!(
        board.get_piece_at_position(Square { file: 6, rank: 0 }).unwrap(),
        Some(Piece::new(Side::White, PieceType::King))
    );
    assert_eq!(
        board.get_piece_at_position(Square { file: 5, rank: 0 }).unwrap(),
        Some(Piece::new(Side::White, PieceType::Rook))
    );
    assert!(board
        .get_piece_at_position(Square { file: 4, rank: 0 })
        .unwrap()
        .is_none());
    assert!(board
        .get_piece_at_position(Square { file: 7, rank: 0 })
        .unwrap()
        .is_none());
    assert!(!board.get_castling_state(Side::White, CastlingDirection::Kingside));
    assert!(!board.get_castling_state(Side::White, CastlingDirection::Queenside));
}

#[test]
fn en_passant_capture_removes_the_bypassed_pawn() {
    let mut board = Board::default();
    for m in ["e2e4", "a7a6", "e4e5", "d7d5"] {
        board
            .make_move(ChessMove::parse(m).unwrap(), true)
            .unwrap();
    }
    // The black pawn just passed d6; capture it in passing.
    let moves = board.generate_moves(true).unwrap();
    let ep = moves
        .iter()
        .find(|m| matches!(m, ChessMove::EnPassant(_, _, _)))
        .expect("an en-passant capture should be available")
        .clone();
    board.make_move(ep, true).unwrap();

    assert_eq!(
        board.get_piece_at_position(Square { file: 3, rank: 5 }).unwrap(),
        Some(Piece::new(Side::White, PieceType::Pawn))
    );
    assert!(board
        .get_piece_at_position(Square { file: 3, rank: 4 })
        .unwrap()
        .is_none());
}

#[test]
fn diagrams_round_trip_through_art() {
    let board = Board::default();
    let art = board.to_art();
    assert_eq!(
        art,
        "rnbqkbnr\npppppppp\n........\n........\n........\n........\nPPPPPPPP\nRNBQKBNR\n"
    );
    let reread = Board::from_art(&art).unwrap();
    assert_eq!(reread.squares, board.squares);
    assert_eq!(reread.width, board.width);
}

#[test]
fn art_marks_the_en_passant_target() {
    let mut board = Board::default();
    board
        .make_move(ChessMove::parse("e2e4").unwrap(), true)
        .unwrap();
    let art = board.to_art();
    let lines: Vec<&str> = art.lines().collect();
    assert_eq!(lines[5], "....*...");
}

#[test]
fn malformed_diagrams_are_rejected() {
    assert!(Board::from_art("").is_err());
    assert!(Board::from_art("....\n...\n....").is_err());
    assert!(Board::from_art("\n\n").is_err());
}

#[test]
fn check_wf_accepts_real_boards_and_rejects_broken_ones() {
    assert!(Board::default().check_wf());
    assert!(Board::with_pieces(vec![None; 25], 5).check_wf());

    let ragged = Board::with_pieces(vec![None; 10], 4);
    assert!(!ragged.check_wf());

    let mut small_with_rights = Board::with_pieces(vec![None; 25], 5);
    small_with_rights.castling_availability = [false, false, true, false];
    assert!(!small_with_rights.check_wf());
}

#[test]
fn null_move_flips_the_side_and_clears_the_target() {
    let mut board = Board::default();
    board
        .make_move(ChessMove::parse("e2e4").unwrap(), true)
        .unwrap();
    assert_eq!(board.current_move, Side::Black);
    assert!(board.en_passant_target.is_some());

    board.make_move(ChessMove::NullMove, false).unwrap();
    assert_eq!(board.current_move, Side::White);
    assert_eq!(board.en_passant_target, None);
}

#[test]
fn bounds_errors_describe_themselves() {
    let board = Board::default();
    let off_board = UncheckedSquare { file: 9, rank: 0 };
    let err = off_board.check_with_board(&board).unwrap_err();
    assert_eq!(
        err,
        InvalidSquareError::OutOfBounds(Orientation::File, off_board)
    );
    assert_eq!(err.message(), "Square is out of bounds");

    let offset_err = InvalidOffsetError::InvalidSquare(err);
    assert_eq!(offset_err.message(), "Square is out of bounds");
}

#[test]
fn pieces_encode_and_decode_as_diagram_letters() {
    for (ch, side, kind) in [
        ('P', Side::White, PieceType::Pawn),
        ('N', Side::White, PieceType::Knight),
        ('B', Side::White, PieceType::Bishop),
        ('R', Side::White, PieceType::Rook),
        ('Q', Side::White, PieceType::Queen),
        ('K', Side::White, PieceType::King),
        ('p', Side::Black, PieceType::Pawn),
        ('n', Side::Black, PieceType::Knight),
        ('b', Side::Black, PieceType::Bishop),
        ('r', Side::Black, PieceType::Rook),
        ('q', Side::Black, PieceType::Queen),
        ('k', Side::Black, PieceType::King),
    ] {
        let piece = Piece::new(side, kind);
        assert_eq!(piece.to_char(), ch);
        assert_eq!(Piece::from_char(ch), Some(piece));
    }
    assert_eq!(Piece::from_char('.'), None);
    assert_eq!(Piece::from_char('x'), None);
}
