use chess_core::board::game::ChessResult::{Checkmate, Draw};
use chess_core::board::piece::Side::{Black, White};

#[test]
fn draws_are_equal() {
    assert_eq!(Draw, Draw);
}

#[test]
fn checkmates_same_side_are_equal() {
    assert_eq!(Checkmate(White), Checkmate(White));
    assert_eq!(Checkmate(Black), Checkmate(Black));
}

#[test]
fn black_in_mate_is_better_for_white_than_white_in_mate() {
    assert!(Checkmate(Black) > Checkmate(White));
    assert!(Checkmate(White) < Checkmate(Black));
}

#[test]
fn draws_are_better_for_white_than_white_in_mate() {
    assert!(Draw > Checkmate(White));
    assert!(Checkmate(White) < Draw);
}

#[test]
fn draws_are_worse_for_white_than_black_in_mate() {
    assert!(Draw < Checkmate(Black));
    assert!(Checkmate(Black) > Draw);
}
