use chess_core::board::castling::implementation::{
    calculate_index, get_king_end_position, get_rook_end_position,
};
use chess_core::board::castling::CastlingDirection;
use chess_core::board::chess_move::ChessMove;
use chess_core::board::piece::{PieceType, Side};
use chess_core::board::square::Square;
use chess_core::board::Board;

#[test]
fn doesnt_disallow_castling_if_king_and_rook_dont_move() {
    let mut board = Board::default();

    // Queen's gambit declined
    let moves = ["d2d4", "d7d5", "c2c4", "e7e6"];
    for chess_move in moves {
        board
            .make_move(ChessMove::parse(chess_move).unwrap(), true)
            .unwrap();
    }

    assert!(board.castling_availability.iter().all(|&a| a));
}

#[test]
fn disallow_castling_if_king_moves() {
    let mut board = Board::default();

    // Bongcloud
    let moves = ["e2e4", "e7e5", "e1e2"];
    for chess_move in moves {
        board
            .make_move(ChessMove::parse(chess_move).unwrap(), true)
            .unwrap();
    }

    assert!(!board.get_castling_state(Side::White, CastlingDirection::Queenside));
    assert!(!board.get_castling_state(Side::White, CastlingDirection::Kingside));
}

#[test]
fn disallow_castling_if_rook_moves() {
    let mut board = Board::default();

    let moves = ["h2h4", "h7h5", "h1h3"];
    for chess_move in moves {
        board
            .make_move(ChessMove::parse(chess_move).unwrap(), true)
            .unwrap();
    }

    assert!(board.get_castling_state(Side::White, CastlingDirection::Queenside));
    assert!(!board.get_castling_state(Side::White, CastlingDirection::Kingside));
}

#[test]
fn implementation_works_with_default_board() {
    let board = Board::default();

    let sides = [Side::White, Side::Black];
    let directions = [CastlingDirection::Queenside, CastlingDirection::Kingside];

    for side in sides {
        for dir in directions {
            assert!(board.get_castling_state(side, dir));
        }
    }
}

#[test]
fn returns_false_when_castling_disallowed() {
    let mut board = Board::default();
    board.castling_availability = [true, false, true, false];

    assert!(!board.get_castling_state(Side::Black, CastlingDirection::Kingside));
    assert!(!board.get_castling_state(Side::White, CastlingDirection::Kingside));
    assert!(board.get_castling_state(Side::Black, CastlingDirection::Queenside));
    assert!(board.get_castling_state(Side::White, CastlingDirection::Queenside));
}

#[test]
fn implementation_works() {
    let mut board = Board::default();

    board.disable_castling(Side::White, CastlingDirection::Kingside);

    assert!(!board.get_castling_state(Side::White, CastlingDirection::Kingside));
    assert!(board.get_castling_state(Side::Black, CastlingDirection::Kingside));
    assert!(board.get_castling_state(Side::White, CastlingDirection::Queenside));
    assert!(board.get_castling_state(Side::Black, CastlingDirection::Queenside));
}

#[test]
fn works_with_default_board() {
    let board = Board::default();

    assert!(board.is_king_in_starting_position().unwrap());
}

#[test]
fn implementation_works_with_empty_board() {
    let pieces = vec![None; 64];
    let board = Board::with_pieces(pieces, 8);

    assert!(!board.is_king_in_starting_position().unwrap());
}

#[test]
fn works_with_no_king_of_current_side() {
    let mut board = Board::default();

    // Remove the White king from the board
    board
        .set_piece_at_position(None, Square { file: 4, rank: 0 })
        .unwrap();

    // This would fail if this method was somehow finding the other king
    assert!(!board.is_king_in_starting_position().unwrap());
}

#[test]
fn works_with_default_board_rooks() {
    let board = Board::default();

    assert!(board
        .is_rook_in_starting_position(CastlingDirection::Kingside)
        .unwrap());
    assert!(board
        .is_rook_in_starting_position(CastlingDirection::Queenside)
        .unwrap());
}

#[test]
fn works_with_empty_board() {
    let pieces = vec![None; 64];
    let board = Board::with_pieces(pieces, 8);

    assert!(!board
        .is_rook_in_starting_position(CastlingDirection::Queenside)
        .unwrap());

    assert!(!board
        .is_rook_in_starting_position(CastlingDirection::Kingside)
        .unwrap());
}

#[test]
fn works_with_one_rook_removed_current_side() {
    let mut board = Board::default();

    board
        .set_piece_at_position(None, Square { file: 0, rank: 0 })
        .unwrap();

    assert!(!board
        .is_rook_in_starting_position(CastlingDirection::Queenside)
        .unwrap());

    assert!(board
        .is_rook_in_starting_position(CastlingDirection::Kingside)
        .unwrap());
}

#[test]
fn works_with_both_rooks_removed_current_side() {
    let mut board = Board::default();

    board
        .set_piece_at_position(None, Square { file: 0, rank: 0 })
        .unwrap();
    board
        .set_piece_at_position(None, Square { file: 7, rank: 0 })
        .unwrap();

    assert!(!board
        .is_rook_in_starting_position(CastlingDirection::Queenside)
        .unwrap());

    assert!(!board
        .is_rook_in_starting_position(CastlingDirection::Kingside)
        .unwrap());
}

#[test]
fn works_with_one_rook_removed_other_side() {
    let mut board = Board::default();

    board
        .set_piece_at_position(None, Square { file: 0, rank: 7 })
        .unwrap();

    assert!(board
        .is_rook_in_starting_position(CastlingDirection::Queenside)
        .unwrap());

    assert!(board
        .is_rook_in_starting_position(CastlingDirection::Kingside)
        .unwrap());
}

#[test]
fn works_with_both_rooks_removed_other_side() {
    let mut board = Board::default();

    board
        .set_piece_at_position(None, Square { file: 0, rank: 7 })
        .unwrap();
    board
        .set_piece_at_position(None, Square { file: 7, rank: 7 })
        .unwrap();

    assert!(board
        .is_rook_in_starting_position(CastlingDirection::Queenside)
        .unwrap());

    assert!(board
        .is_rook_in_starting_position(CastlingDirection::Kingside)
        .unwrap());
}

#[test]
fn works_with_all_true() {
    let board = Board::default();

    assert!(board.is_any_castling_state_enabled());
}

#[test]
fn works_with_one_true() {
    let mut board = Board::default();

    // Set white castling queenside to be allowed
    board.castling_availability = [false, false, true, false];

    assert!(board.is_any_castling_state_enabled());
}

#[test]
fn works_with_none_true() {
    let mut board = Board::default();

    // Black is allowed to castle, white isn't
    board.castling_availability = [true, true, false, false];

    assert!(!board.is_any_castling_state_enabled());
}

fn get_test_board() -> Board {
    let mut board = Board::from_art(
        "........\n\
         ........\n\
         ........\n\
         ........\n\
         ........\n\
         ........\n\
         ........\n\
         r...k..r",
    )
    .unwrap();

    board.castling_availability = [false, false, true, true];

    board
}

#[test]
fn doesnt_block_when_free_queenside() {
    let mut board = Board::default();

    // Remove the queen, queenside bishop and knight
    board
        .set_piece_at_position(None, Square { file: 1, rank: 0 })
        .unwrap();
    board
        .set_piece_at_position(None, Square { file: 2, rank: 0 })
        .unwrap();
    board
        .set_piece_at_position(None, Square { file: 3, rank: 0 })
        .unwrap();

    assert!(!board.are_pieces_blocking(CastlingDirection::Queenside));
}

#[test]
fn doesnt_block_when_free_kingside() {
    let mut board = Board::default();

    // Remove the kingside bishop and the knight
    board
        .set_piece_at_position(None, Square { file: 5, rank: 0 })
        .unwrap();
    board
        .set_piece_at_position(None, Square { file: 6, rank: 0 })
        .unwrap();

    assert!(!board.are_pieces_blocking(CastlingDirection::Kingside));
}

#[test]
fn blocks_when_any_piece_present() {
    let mut board = Board::default();

    // Remove the kingside bishop, but not the knight
    board
        .set_piece_at_position(None, Square { file: 5, rank: 0 })
        .unwrap();

    assert!(board.are_pieces_blocking(CastlingDirection::Kingside));
}

fn assert_indices_and_files_for_board(indices_and_files: &[(usize, u8)], boards: &[Board]) {
    for &(index, file) in indices_and_files {
        let board = boards.get(index).unwrap();
        assert!(board
            .get_piece_at_position(Square { file, rank: 0 })
            .is_ok_and(|o| o.is_some_and(|k| k.piece_type == PieceType::King)));
    }
}

#[test]
fn works_kingside() {
    let board = get_test_board();

    let moving_boards = board
        .moving_king_boards(CastlingDirection::Kingside)
        .unwrap();
    assert_eq!(moving_boards.len(), 2);

    let indices_and_files = [(0, 5), (1, 6)];
    assert_indices_and_files_for_board(&indices_and_files, &moving_boards);
}

#[test]
fn works_queenside() {
    let board = get_test_board();

    let moving_boards = board
        .moving_king_boards(CastlingDirection::Queenside)
        .unwrap();
    assert_eq!(moving_boards.len(), 3);

    let indices_and_files = [(0, 3), (1, 2), (2, 1)];
    assert_indices_and_files_for_board(&indices_and_files, &moving_boards);
}

#[test]
fn can_castle_queenside() {
    let mut board = get_test_board();

    board.unchecked_castle(CastlingDirection::Queenside);
    let king = board
        .get_piece_at_position(get_king_end_position(Side::White, CastlingDirection::Queenside))
        .unwrap()
        .unwrap();
    let rook = board
        .get_piece_at_position(get_rook_end_position(Side::White, CastlingDirection::Queenside))
        .unwrap()
        .unwrap();

    assert_eq!(king.piece_type, PieceType::King);
    assert_eq!(rook.piece_type, PieceType::Rook);
}

#[test]
fn can_castle_kingside() {
    let mut board = get_test_board();

    board.unchecked_castle(CastlingDirection::Kingside);
    let king = board
        .get_piece_at_position(get_king_end_position(Side::White, CastlingDirection::Kingside))
        .unwrap()
        .unwrap();
    let rook = board
        .get_piece_at_position(get_rook_end_position(Side::White, CastlingDirection::Kingside))
        .unwrap()
        .unwrap();

    assert_eq!(king.piece_type, PieceType::King);
    assert_eq!(rook.piece_type, PieceType::Rook);
}

#[test]
fn works() {
    assert_eq!(calculate_index(Side::Black, CastlingDirection::Queenside), 0);
    assert_eq!(calculate_index(Side::Black, CastlingDirection::Kingside), 1);
    assert_eq!(calculate_index(Side::White, CastlingDirection::Queenside), 2);
    assert_eq!(calculate_index(Side::White, CastlingDirection::Kingside), 3);
}
