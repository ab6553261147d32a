use chess_core::board::piece::{Piece, PieceType, Side};
use chess_core::board::Board;

#[test]
fn has_correct_size() {
    let board = Board::default();

    assert_eq!(board.squares.len(), 64);
    assert_eq!(board.width, 8);
}

#[test]
fn has_pieces_where_it_should() {
    let board = Board::default();

    for i in (0..16).chain(48..64) {
        assert!(board.squares[i].is_some());
    }
}

#[test]
fn has_pawns_where_it_should() {
    let board = Board::default();

    for i in 8..16 {
        assert!(matches!(
            board.squares[i],
            Some(Piece {
                piece_type: PieceType::Pawn,
                ..
            })
        ));
    }
    for i in 48..56 {
        assert!(matches!(
            board.squares[i],
            Some(Piece {
                piece_type: PieceType::Pawn,
                ..
            })
        ));
    }
}

#[test]
fn has_no_pieces_where_it_should() {
    let board = Board::default();

    for i in 16..48 {
        assert!(board.squares[i].is_none());
    }
}

#[test]
fn has_rooks_where_it_should() {
    let board = Board::default();
    for i in [0, 7, 56, 63] {
        assert!(matches!(
            board.squares[i],
            Some(Piece {
                piece_type: PieceType::Rook,
                ..
            })
        ));
    }
}

#[test]
fn has_knights_where_it_should() {
    let board = Board::default();
    for i in [1, 6, 57, 62] {
        assert!(matches!(
            board.squares[i],
            Some(Piece {
                piece_type: PieceType::Knight,
                ..
            })
        ));
    }
}

#[test]
fn has_bishop_where_it_should() {
    let board = Board::default();
    for i in [2, 5, 58, 61] {
        assert!(matches!(
            board.squares[i],
            Some(Piece {
                piece_type: PieceType::Bishop,
                ..
            })
        ));
    }
}

#[test]
fn has_queens_where_it_should() {
    let board = Board::default();
    for i in [3, 59] {
        assert!(matches!(
            board.squares[i],
            Some(Piece {
                piece_type: PieceType::Queen,
                ..
            })
        ));
    }
}

#[test]
fn has_kings_where_it_should() {
    let board = Board::default();
    for i in [4, 60] {
        assert!(matches!(
            board.squares[i],
            Some(Piece {
                piece_type: PieceType::King,
                ..
            })
        ));
    }
}

#[test]
fn has_piece_sides_correct() {
    let board = Board::default();

    for i in 0..16 {
        assert!(matches!(
            board.squares[i],
            Some(Piece {
                side: Side::White,
                ..
            })
        ));
    }

    for i in 48..64 {
        assert!(matches!(
            board.squares[i],
            Some(Piece {
                side: Side::Black,
                ..
            })
        ));
    }
}

fn generate_move_tree(board: &Board, depth: u8) -> usize {
    let moves = board.generate_moves(true).unwrap();

    if depth == 0 {
        moves.len()
    } else {
        moves
            .into_iter()
            .map(|m| {
                let mut new_board = board.clone();
                new_board.make_move(m.clone(), false).unwrap();

                generate_move_tree(&new_board, depth - 1)
            })
            .sum()
    }
}

/// Compares move generation against the known node counts from the
/// starting position.
#[test]
fn generates_expected_move_counts() {
    let expected_move_counts = [20, 400, 8902, 197281, 4865609];

    for (depth, &expected_move_count) in expected_move_counts.iter().enumerate() {
        let actual_move_count = generate_move_tree(&Board::default(), depth as u8);
        assert_eq!(expected_move_count, actual_move_count);
    }
}

#[test]
fn from_art_works_as_expected() {
    let art = "rnbqkbnr\n\
         pppppppp\n\
         ........\n\
         ........\n\
         ........\n\
         ........\n\
         PPPPPPPP\n\
         RNBQKBNR";

    let mut board = Board::from_art(art).unwrap();

    // A default board has castling available, but a board built from a
    // diagram reports it as unavailable; set it here so the two compare
    // square for square.
    board.castling_availability = [true, true, true, true];

    let default_board = Board::default();
    assert_eq!(board.squares, default_board.squares);
    assert_eq!(board.width, default_board.width);
    assert_eq!(board.en_passant_target, default_board.en_passant_target);
    assert_eq!(board.current_move, default_board.current_move);
    assert_eq!(board.castling_availability, default_board.castling_availability);
}
