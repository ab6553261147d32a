//! The earliest behaviors the board has promised: the default layout and
//! the first pawn, knight and king movement rules, exercised through the
//! public interface.

use chess_core::board::piece::{Piece, PieceType, Side};
use chess_core::board::square::Square;
use chess_core::board::test_utils::check_for_moves;
use chess_core::board::Board;

#[test]
fn pieces_has_correct_size() {
    let board = Board::default();

    assert_eq!(board.squares.len(), 64);
    assert_eq!(board.width, 8);
}

#[test]
fn pieces_has_pieces_where_it_should() {
    let board = Board::default();

    for i in (0..16).chain(48..64) {
        assert!(board.squares[i].is_some());
    }
}

#[test]
fn pieces_has_pawns_where_it_should() {
    let board = Board::default();

    for i in 8..16 {
        assert!(matches!(
            board.squares[i],
            Some(Piece {
                piece_type: PieceType::Pawn,
                ..
            })
        ));
    }
    for i in 48..56 {
        assert!(matches!(
            board.squares[i],
            Some(Piece {
                piece_type: PieceType::Pawn,
                ..
            })
        ));
    }
}

#[test]
fn pieces_has_no_pieces_where_it_should() {
    let board = Board::default();

    for i in 16..48 {
        assert!(board.squares[i].is_none());
    }
}

#[test]
fn pieces_has_rooks_where_it_should() {
    let board = Board::default();
    for i in [0, 7, 56, 63] {
        assert!(matches!(
            board.squares[i],
            Some(Piece {
                piece_type: PieceType::Rook,
                ..
            })
        ));
    }
}

#[test]
fn pieces_has_knights_where_it_should() {
    let board = Board::default();
    for i in [1, 6, 57, 62] {
        assert!(matches!(
            board.squares[i],
            Some(Piece {
                piece_type: PieceType::Knight,
                ..
            })
        ));
    }
}

#[test]
fn pieces_has_bishop_where_it_should() {
    let board = Board::default();
    for i in [2, 5, 58, 61] {
        assert!(matches!(
            board.squares[i],
            Some(Piece {
                piece_type: PieceType::Bishop,
                ..
            })
        ));
    }
}

#[test]
fn pieces_has_queens_where_it_should() {
    let board = Board::default();
    for i in [3, 59] {
        assert!(matches!(
            board.squares[i],
            Some(Piece {
                piece_type: PieceType::Queen,
                ..
            })
        ));
    }
}

#[test]
fn pieces_has_kings_where_it_should() {
    let board = Board::default();
    for i in [4, 60] {
        assert!(matches!(
            board.squares[i],
            Some(Piece {
                piece_type: PieceType::King,
                ..
            })
        ));
    }
}

#[test]
fn pieces_has_piece_sides_correct() {
    let board = Board::default();

    for i in 0..16 {
        assert!(matches!(
            board.squares[i],
            Some(Piece {
                side: Side::White,
                ..
            })
        ));
    }

    for i in 48..64 {
        assert!(matches!(
            board.squares[i],
            Some(Piece {
                side: Side::Black,
                ..
            })
        ));
    }
}

// Returns a board with the setup (FEN piece notation)
// .......
// .....p.
// ....p.p
// .Pp...P
// P.P.PP.
// .......
fn simple_pawn_move_board() -> Board {
    let mut squares = vec![None; 7 * 6];
    squares[7] = Some(Piece::new(Side::White, PieceType::Pawn));
    squares[9] = Some(Piece::new(Side::White, PieceType::Pawn));
    squares[11] = Some(Piece::new(Side::White, PieceType::Pawn));
    squares[12] = Some(Piece::new(Side::White, PieceType::Pawn));

    squares[15] = Some(Piece::new(Side::White, PieceType::Pawn));
    squares[16] = Some(Piece::new(Side::Black, PieceType::Pawn));
    squares[20] = Some(Piece::new(Side::White, PieceType::Pawn));

    squares[25] = Some(Piece::new(Side::Black, PieceType::Pawn));
    squares[27] = Some(Piece::new(Side::Black, PieceType::Pawn));

    squares[33] = Some(Piece::new(Side::Black, PieceType::Pawn));

    Board {
        squares,
        width: 7,
        en_passant_target: None,
        current_move: Side::White,
        castling_availability: [false, false, false, false],
    }
}

#[test]
fn pieces_one_square_forward() {
    let board = simple_pawn_move_board();
    let moved_boards = board.generate_moved_boards(true).unwrap();

    let expected_single_square_pushes = vec![
        Square { rank: 2, file: 0 },
        Square { rank: 2, file: 4 },
        Square { rank: 2, file: 5 },
        Square { rank: 3, file: 1 },
    ];
    let unexpected_single_square_pushes =
        vec![Square { rank: 2, file: 2 }, Square { rank: 3, file: 6 }];

    assert!(check_for_moves(
        moved_boards,
        expected_single_square_pushes,
        unexpected_single_square_pushes,
        Piece::new(Side::White, PieceType::Pawn)
    ));
}

#[test]
fn pieces_two_squares_forward() {
    let board = simple_pawn_move_board();
    let moved_boards = board.generate_moved_boards(true).unwrap();

    let expected_double_square_pushes =
        vec![Square { rank: 3, file: 0 }, Square { rank: 3, file: 5 }];
    let unexpected_double_square_pushes = vec![
        Square { rank: 4, file: 1 },
        Square { rank: 3, file: 2 },
        Square { rank: 3, file: 4 },
        Square { rank: 4, file: 6 },
    ];

    assert!(check_for_moves(
        moved_boards,
        expected_double_square_pushes,
        unexpected_double_square_pushes,
        Piece::new(Side::White, PieceType::Pawn)
    ));
}

// Returns a board with the setup
// .....
// .....
// B.ko.
// .P.pP
// .....
// Where o is the en passant target
fn pawn_capture_board() -> Board {
    let mut board = Board {
        squares: vec![None; 5 * 5],
        width: 5,
        en_passant_target: Some(Square { rank: 2, file: 3 }),
        current_move: Side::White,
        castling_availability: [false, false, false, false],
    };

    board
        .set_piece_at_position(Some(Piece::new(Side::White, PieceType::Pawn)), Square {
            rank: 1,
            file: 1,
        })
        .unwrap();
    board
        .set_piece_at_position(Some(Piece::new(Side::White, PieceType::Bishop)), Square {
            rank: 2,
            file: 0,
        })
        .unwrap();
    board
        .set_piece_at_position(Some(Piece::new(Side::Black, PieceType::Knight)), Square {
            rank: 2,
            file: 2,
        })
        .unwrap();

    board
        .set_piece_at_position(Some(Piece::new(Side::White, PieceType::Pawn)), Square {
            rank: 1,
            file: 4,
        })
        .unwrap();
    board
        .set_piece_at_position(Some(Piece::new(Side::Black, PieceType::Pawn)), Square {
            rank: 1,
            file: 3,
        })
        .unwrap();

    board
}

#[test]
fn pieces_captures_opponents_pieces() {
    let board = pawn_capture_board();

    let moved_boards = board.generate_moved_boards(true).unwrap();

    assert!(moved_boards.into_iter().any(|x| matches!(
        x.get_piece_at_position(Square { rank: 2, file: 2 }).unwrap(),
        Some(Piece {
            piece_type: PieceType::Pawn,
            ..
        })
    )));
}

#[test]
fn pieces_doesnt_capture_friendly_pieces() {
    let board = pawn_capture_board();

    let moved_boards = board.generate_moved_boards(true).unwrap();

    assert!(moved_boards.into_iter().all(|x| !matches!(
        x.get_piece_at_position(Square { rank: 2, file: 0 }).unwrap(),
        Some(Piece {
            piece_type: PieceType::Pawn,
            ..
        })
    )));
}

#[test]
fn pieces_captures_en_passant() {
    let board = pawn_capture_board();

    let moved_boards = board.generate_moved_boards(true).unwrap();

    assert!(moved_boards.iter().any(|x| matches!(
        x.get_piece_at_position(Square { rank: 2, file: 3 }).unwrap(),
        Some(Piece {
            piece_type: PieceType::Pawn,
            ..
        })
    ) && x
        .get_piece_at_position(Square { rank: 1, file: 3 })
        .unwrap()
        .is_none()));
}

// Returns a board with the setup
// P.....
// ...p..
// .K..p.
// ...P.p
// ...K..
// .....P
fn simple_knight_move_board() -> Board {
    let mut board = Board::with_pieces(vec![None; 6 * 6], 6);

    board
        .set_piece_at_position(Some(Piece::new(Side::White, PieceType::Knight)), Square {
            rank: 1,
            file: 3,
        })
        .unwrap();
    board
        .set_piece_at_position(Some(Piece::new(Side::White, PieceType::Knight)), Square {
            rank: 3,
            file: 1,
        })
        .unwrap();

    board
        .set_piece_at_position(Some(Piece::new(Side::White, PieceType::Pawn)), Square {
            rank: 2,
            file: 3,
        })
        .unwrap();
    board
        .set_piece_at_position(Some(Piece::new(Side::White, PieceType::Pawn)), Square {
            rank: 0,
            file: 5,
        })
        .unwrap();
    board
        .set_piece_at_position(Some(Piece::new(Side::White, PieceType::Pawn)), Square {
            rank: 5,
            file: 0,
        })
        .unwrap();

    board
        .set_piece_at_position(Some(Piece::new(Side::Black, PieceType::Pawn)), Square {
            rank: 2,
            file: 5,
        })
        .unwrap();
    board
        .set_piece_at_position(Some(Piece::new(Side::Black, PieceType::Pawn)), Square {
            rank: 3,
            file: 4,
        })
        .unwrap();
    board
        .set_piece_at_position(Some(Piece::new(Side::Black, PieceType::Pawn)), Square {
            rank: 4,
            file: 3,
        })
        .unwrap();

    board
}

#[test]
fn pieces_moves_like_a_knight() {
    let board = simple_knight_move_board();

    let moved_boards = board.generate_moved_boards(true).unwrap();

    let expected_moves = vec![
        Square { rank: 5, file: 2 },
        Square { rank: 4, file: 3 },
        Square { rank: 1, file: 2 },
        Square { rank: 1, file: 0 },
        Square { rank: 3, file: 2 },
        Square { rank: 3, file: 4 },
        Square { rank: 2, file: 1 },
        Square { rank: 2, file: 5 },
        Square { rank: 0, file: 1 },
    ];
    let unexpected_moves = vec![
        Square { rank: 5, file: 0 },
        Square { rank: 0, file: 5 },
        Square { rank: 2, file: 3 },
    ];

    assert!(check_for_moves(
        moved_boards,
        expected_moves,
        unexpected_moves,
        Piece::new(Side::White, PieceType::Knight)
    ));
}

#[test]
fn pieces_moves_one_step_nearby() {
    let mut pieces = vec![None; 9];
    pieces[4] = Some(Piece::new(Side::White, PieceType::King));
    let board = Board::with_pieces(pieces, 3);

    let moved_boards = board.generate_moved_boards(true).unwrap();

    // every place other than the centre should have a king move
    for rank in 0..2 {
        for file in 0..2 {
            if (rank, file) != (1, 1) {
                assert!(moved_boards.iter().any(|x| matches!(
                    x.get_piece_at_position(Square { rank, file }).unwrap(),
                    Some(Piece {
                        piece_type: PieceType::King,
                        ..
                    })
                ) && x
                    .get_piece_at_position(Square { rank: 1, file: 1 })
                    .unwrap()
                    .is_none()));
            }
        }
    }
}
