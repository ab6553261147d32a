use chess_core::board::chess_move::ChessMove;
use chess_core::board::piece::{Piece, PieceType, Side};
use chess_core::board::square::Square;
use chess_core::board::test_utils::{check_for_moves, get_board_for_simple_straight_moves};
use chess_core::board::Board;

#[test]
fn moves_diagonally() {
    let board = get_board_for_simple_straight_moves(PieceType::Bishop);

    let moved_boards = board.generate_moved_boards(true).unwrap();

    let expected_moves = vec![
        Square { rank: 1, file: 3 },
        Square { rank: 0, file: 2 },
        Square { rank: 1, file: 5 },
        Square { rank: 0, file: 6 },
        Square { rank: 3, file: 3 },
        Square { rank: 3, file: 5 },
        Square { rank: 4, file: 6 },
        Square { rank: 5, file: 3 },
        Square { rank: 6, file: 4 },
        Square { rank: 5, file: 1 },
        Square { rank: 6, file: 0 },
    ];

    let unexpected_moves = vec![
        Square { rank: 2, file: 3 },
        Square { rank: 2, file: 5 },
        Square { rank: 1, file: 4 },
        Square { rank: 3, file: 4 },
        Square { rank: 4, file: 1 },
        Square { rank: 4, file: 3 },
        Square { rank: 3, file: 2 },
        Square { rank: 5, file: 2 },
        Square { rank: 5, file: 7 },
        Square { rank: 3, file: 1 },
        Square { rank: 2, file: 0 },
        Square { rank: 7, file: 5 },
    ];

    assert!(check_for_moves(
        moved_boards,
        expected_moves,
        unexpected_moves,
        Piece::new(Side::White, PieceType::Bishop)
    ));
}

#[test]
fn moves_orthogonally() {
    let board = get_board_for_simple_straight_moves(PieceType::Rook);

    let moved_boards = board.generate_moved_boards(true).unwrap();

    let expected_moves = vec![
        Square { rank: 2, file: 3 },
        Square { rank: 2, file: 2 },
        Square { rank: 2, file: 1 },
        Square { rank: 2, file: 0 },
        Square { rank: 1, file: 4 },
        Square { rank: 0, file: 4 },
        Square { rank: 3, file: 4 },
        Square { rank: 4, file: 4 },
        Square { rank: 5, file: 4 },
        Square { rank: 6, file: 4 },
        Square { rank: 4, file: 1 },
        Square { rank: 4, file: 0 },
        Square { rank: 4, file: 3 },
        Square { rank: 4, file: 4 },
        Square { rank: 4, file: 5 },
        Square { rank: 4, file: 6 },
        Square { rank: 4, file: 7 },
        Square { rank: 3, file: 2 },
        Square { rank: 2, file: 2 },
        Square { rank: 1, file: 2 },
        Square { rank: 5, file: 2 },
        Square { rank: 6, file: 2 },
    ];
    let unexpected_moves = vec![
        Square { rank: 2, file: 5 },
        Square { rank: 2, file: 6 },
        Square { rank: 0, file: 2 },
        Square { rank: 7, file: 2 },
        Square { rank: 1, file: 3 },
        Square { rank: 1, file: 5 },
        Square { rank: 3, file: 3 },
        Square { rank: 3, file: 5 },
        Square { rank: 5, file: 3 },
        Square { rank: 5, file: 1 },
        Square { rank: 3, file: 1 },
    ];

    assert!(check_for_moves(
        moved_boards,
        expected_moves,
        unexpected_moves,
        Piece::new(Side::White, PieceType::Rook)
    ));
}

#[test]
fn moves_both_orthogonally_and_diagonally() {
    let board = get_board_for_simple_straight_moves(PieceType::Queen);

    let moved_boards = board.generate_moved_boards(true).unwrap();

    let expected_moves = vec![
        Square { rank: 2, file: 3 },
        Square { rank: 2, file: 2 },
        Square { rank: 2, file: 1 },
        Square { rank: 2, file: 0 },
        Square { rank: 1, file: 4 },
        Square { rank: 0, file: 4 },
        Square { rank: 3, file: 4 },
        Square { rank: 4, file: 4 },
        Square { rank: 5, file: 4 },
        Square { rank: 6, file: 4 },
        Square { rank: 4, file: 1 },
        Square { rank: 4, file: 0 },
        Square { rank: 4, file: 3 },
        Square { rank: 4, file: 4 },
        Square { rank: 4, file: 5 },
        Square { rank: 4, file: 6 },
        Square { rank: 4, file: 7 },
        Square { rank: 3, file: 2 },
        Square { rank: 2, file: 2 },
        Square { rank: 1, file: 2 },
        Square { rank: 5, file: 2 },
        Square { rank: 6, file: 2 },
        Square { rank: 1, file: 3 },
        Square { rank: 0, file: 2 },
        Square { rank: 1, file: 5 },
        Square { rank: 0, file: 6 },
        Square { rank: 3, file: 3 },
        Square { rank: 3, file: 5 },
        Square { rank: 4, file: 6 },
        Square { rank: 5, file: 3 },
        Square { rank: 6, file: 4 },
        Square { rank: 5, file: 1 },
        Square { rank: 6, file: 0 },
    ];

    assert!(check_for_moves(
        moved_boards,
        expected_moves,
        vec![],
        Piece::new(Side::White, PieceType::Queen)
    ));
}

fn get_board_for_simple_knight_moves() -> Board {
    let mut board = Board::with_pieces(vec![None; 6 * 6], 6);

    board
        .set_piece_at_position(Some(Piece::new(Side::White, PieceType::Knight)), Square {
            rank: 1,
            file: 3,
        })
        .unwrap();
    board
        .set_piece_at_position(Some(Piece::new(Side::White, PieceType::Knight)), Square {
            rank: 3,
            file: 1,
        })
        .unwrap();

    board
        .set_piece_at_position(Some(Piece::new(Side::White, PieceType::Pawn)), Square {
            rank: 2,
            file: 3,
        })
        .unwrap();
    board
        .set_piece_at_position(Some(Piece::new(Side::White, PieceType::Pawn)), Square {
            rank: 0,
            file: 5,
        })
        .unwrap();
    board
        .set_piece_at_position(Some(Piece::new(Side::White, PieceType::Pawn)), Square {
            rank: 5,
            file: 0,
        })
        .unwrap();

    board
        .set_piece_at_position(Some(Piece::new(Side::Black, PieceType::Pawn)), Square {
            rank: 2,
            file: 5,
        })
        .unwrap();
    board
        .set_piece_at_position(Some(Piece::new(Side::Black, PieceType::Pawn)), Square {
            rank: 3,
            file: 4,
        })
        .unwrap();
    board
        .set_piece_at_position(Some(Piece::new(Side::Black, PieceType::Pawn)), Square {
            rank: 4,
            file: 3,
        })
        .unwrap();

    board
}

#[test]
fn moves_like_a_knight() {
    let board = get_board_for_simple_knight_moves();

    let moved_boards = board.generate_moved_boards(true).unwrap();

    let expected_moves = vec![
        Square { rank: 5, file: 2 },
        Square { rank: 4, file: 3 },
        Square { rank: 1, file: 2 },
        Square { rank: 1, file: 0 },
        Square { rank: 3, file: 2 },
        Square { rank: 3, file: 4 },
        Square { rank: 2, file: 1 },
        Square { rank: 2, file: 5 },
        Square { rank: 0, file: 1 },
    ];
    let unexpected_moves = vec![
        Square { rank: 5, file: 0 },
        Square { rank: 0, file: 5 },
        Square { rank: 2, file: 3 },
    ];

    assert!(check_for_moves(
        moved_boards,
        expected_moves,
        unexpected_moves,
        Piece::new(Side::White, PieceType::Knight)
    ));
}

fn get_board_for_simple_king_moves() -> Board {
    let mut pieces = vec![None; 9];
    pieces[4] = Some(Piece::new(Side::White, PieceType::King));

    Board::with_pieces(pieces, 3)
}

#[test]
fn moves_one_step_nearby() {
    let board = get_board_for_simple_king_moves();

    let moved_boards = board.generate_moved_boards(true).unwrap();

    // every place other than the centre should have a king move
    for rank in 0..2 {
        for file in 0..2 {
            if (rank, file) != (1, 1) {
                assert!(moved_boards.iter().any(|x| matches!(
                    x.get_piece_at_position(Square { rank, file }).unwrap(),
                    Some(Piece {
                        piece_type: PieceType::King,
                        ..
                    })
                ) && x
                    .get_piece_at_position(Square { rank: 1, file: 1 })
                    .unwrap()
                    .is_none()));
            }
        }
    }
}

// Returns a board with the setup
// .....
// .....
// B.ko.
// .P.pP
// .....
// Where o is the en passant target
fn get_test_board_for_pawn_captures() -> Board {
    let mut board = Board {
        squares: vec![None; 5 * 5],
        width: 5,
        en_passant_target: Some(Square { rank: 2, file: 3 }),
        current_move: Side::White,
        castling_availability: [false, false, false, false],
    };

    board
        .set_piece_at_position(Some(Piece::new(Side::White, PieceType::Pawn)), Square {
            rank: 1,
            file: 1,
        })
        .unwrap();
    board
        .set_piece_at_position(Some(Piece::new(Side::White, PieceType::Bishop)), Square {
            rank: 2,
            file: 0,
        })
        .unwrap();
    board
        .set_piece_at_position(Some(Piece::new(Side::Black, PieceType::Knight)), Square {
            rank: 2,
            file: 2,
        })
        .unwrap();

    board
        .set_piece_at_position(Some(Piece::new(Side::White, PieceType::Pawn)), Square {
            rank: 1,
            file: 4,
        })
        .unwrap();
    board
        .set_piece_at_position(Some(Piece::new(Side::Black, PieceType::Pawn)), Square {
            rank: 1,
            file: 3,
        })
        .unwrap();

    board
}

// Returns a board with the setup (FEN piece notation)
// .......
// .....p.
// ....p.p
// .Pp...P
// P.P.PP.
// .......
fn get_test_board_for_simple_pawn_moves() -> Board {
    let mut squares = vec![None; 7 * 6];
    squares[7] = Some(Piece::new(Side::White, PieceType::Pawn));
    squares[9] = Some(Piece::new(Side::White, PieceType::Pawn));
    squares[11] = Some(Piece::new(Side::White, PieceType::Pawn));
    squares[12] = Some(Piece::new(Side::White, PieceType::Pawn));

    squares[15] = Some(Piece::new(Side::White, PieceType::Pawn));
    squares[16] = Some(Piece::new(Side::Black, PieceType::Pawn));
    squares[20] = Some(Piece::new(Side::White, PieceType::Pawn));

    squares[25] = Some(Piece::new(Side::Black, PieceType::Pawn));
    squares[27] = Some(Piece::new(Side::Black, PieceType::Pawn));

    squares[33] = Some(Piece::new(Side::Black, PieceType::Pawn));

    Board {
        squares,
        width: 7,
        en_passant_target: None,
        current_move: Side::White,
        castling_availability: [false, false, false, false],
    }
}

#[test]
fn one_square_forward() {
    let board = get_test_board_for_simple_pawn_moves();
    let moved_boards = board.generate_moved_boards(true).unwrap();

    let expected_single_square_pushes = vec![
        Square { rank: 2, file: 0 },
        Square { rank: 2, file: 4 },
        Square { rank: 2, file: 5 },
        Square { rank: 3, file: 1 },
    ];
    let unexpected_single_square_pushes =
        vec![Square { rank: 2, file: 2 }, Square { rank: 3, file: 6 }];

    assert!(check_for_moves(
        moved_boards,
        expected_single_square_pushes,
        unexpected_single_square_pushes,
        Piece::new(Side::White, PieceType::Pawn)
    ));
}

#[test]
fn two_squares_forward() {
    let board = get_test_board_for_simple_pawn_moves();
    let moved_boards = board.generate_moved_boards(true).unwrap();

    let expected_double_square_pushes =
        vec![Square { rank: 3, file: 0 }, Square { rank: 3, file: 5 }];
    let unexpected_double_square_pushes = vec![
        Square { rank: 4, file: 1 },
        Square { rank: 3, file: 2 },
        Square { rank: 3, file: 4 },
        Square { rank: 4, file: 6 },
    ];

    assert!(check_for_moves(
        moved_boards,
        expected_double_square_pushes,
        unexpected_double_square_pushes,
        Piece::new(Side::White, PieceType::Pawn)
    ));
}

#[test]
fn captures_opponents_pieces() {
    let board = get_test_board_for_pawn_captures();

    let moved_boards = board.generate_moved_boards(true).unwrap();

    // At least one of the moves suggested should have the pawn take a piece
    assert!(moved_boards.into_iter().any(|x| matches!(
        x.get_piece_at_position(Square { rank: 2, file: 2 }).unwrap(),
        Some(Piece {
            piece_type: PieceType::Pawn,
            ..
        })
    )));
}

#[test]
fn doesnt_capture_friendly_pieces() {
    let board = get_test_board_for_pawn_captures();

    let moved_boards = board.generate_moved_boards(true).unwrap();

    // None of the moves should have a pawn taking the friendly piece
    assert!(moved_boards.into_iter().all(|x| !matches!(
        x.get_piece_at_position(Square { rank: 2, file: 0 }).unwrap(),
        Some(Piece {
            piece_type: PieceType::Pawn,
            ..
        })
    )));
}

#[test]
fn captures_en_passant() {
    let board = get_test_board_for_pawn_captures();

    let moved_boards = board.generate_moved_boards(true).unwrap();

    // At least one of the moves suggested should have the pawn take the
    // pawn en passant
    assert!(moved_boards.iter().any(|x| matches!(
        x.get_piece_at_position(Square { rank: 2, file: 3 }).unwrap(),
        Some(Piece {
            piece_type: PieceType::Pawn,
            ..
        })
    ) && x
        .get_piece_at_position(Square { rank: 1, file: 3 })
        .unwrap()
        .is_none()));
}

#[test]
fn generates_en_passant_target() {
    let mut board = Board::from_art(
        "....\n\
         pppp\n\
         ....\n\
         ..P.\n\
         ....\n\
         ....\n",
    )
    .unwrap();

    board.current_move = Side::Black;

    // Push pawn to create en_passant_target
    board
        .make_move(
            ChessMove::SimpleMove(Square { rank: 4, file: 1 }, Square { rank: 2, file: 1 }),
            true,
        )
        .unwrap();

    assert_eq!(board.en_passant_target, Some(Square { file: 1, rank: 3 }));
}
