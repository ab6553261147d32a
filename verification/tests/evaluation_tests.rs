use chess_core::board::game::ChessResult;
use chess_core::board::piece::Side;
use chess_core::board::Board;
use chess_core::evaluation::composite::CompositeEvaluator;
use chess_core::evaluation::evaluation_result::Evaluation;
use chess_core::evaluation::material::MaterialEvaluator;
use chess_core::evaluation::result::ResultEvaluator;
use chess_core::evaluation::test_utils::DummyEvaluator;
use chess_core::evaluation::Evaluator;

#[test]
fn sum_of_estimates_when_not_certain() {
    let mut evaluator = CompositeEvaluator::new();
    evaluator
        .push(Box::new(DummyEvaluator {
            result: Evaluation::Estimate(30),
        }))
        .push(Box::new(DummyEvaluator {
            result: Evaluation::Estimate(-20),
        }))
        .push(Box::new(DummyEvaluator {
            result: Evaluation::Estimate(13),
        }));

    assert_eq!(
        evaluator.evaluate(&Board::default()).unwrap(),
        Evaluation::Estimate(23)
    );
}

#[test]
fn certain_when_even_one_is_certain() {
    let mut evaluator = CompositeEvaluator::new();
    evaluator
        .push(Box::new(DummyEvaluator {
            result: Evaluation::Estimate(30),
        }))
        .push(Box::new(DummyEvaluator {
            result: Evaluation::Estimate(-20),
        }))
        .push(Box::new(DummyEvaluator {
            result: Evaluation::Certain(ChessResult::Draw, 3),
        }))
        .push(Box::new(DummyEvaluator {
            result: Evaluation::Estimate(13),
        }));

    assert_eq!(
        evaluator.evaluate(&Board::default()).unwrap(),
        Evaluation::Certain(ChessResult::Draw, 3)
    );
}

#[test]
fn empty_estimate() {
    let evaluator = CompositeEvaluator::new();

    assert_eq!(
        evaluator.evaluate(&Board::default()).unwrap(),
        Evaluation::Estimate(0)
    );
}

#[test]
fn material_default_board_equal() {
    let evaluator = MaterialEvaluator::new();
    assert_eq!(
        evaluator.evaluate(&Board::default()).unwrap(),
        Evaluation::Estimate(0)
    );
}

#[test]
fn material_one_sided_black() {
    let board = Board::from_art(
        "........\n\
         ........\n\
         ........\n\
         ........\n\
         ........\n\
         ........\n\
         pppppppp\n\
         rnbqkbnr",
    )
    .unwrap();
    let evaluator = MaterialEvaluator::new();
    assert_eq!(
        evaluator.evaluate(&board).unwrap(),
        Evaluation::Estimate(-13900)
    );
}

#[test]
fn material_one_sided_white() {
    let board = Board::from_art(
        "RNBQKBNR\n\
         PPPPPPPP\n\
         ........\n\
         ........\n\
         ........\n\
         ........\n\
         ........\n\
         ........",
    )
    .unwrap();
    let evaluator = MaterialEvaluator::new();
    assert_eq!(
        evaluator.evaluate(&board).unwrap(),
        Evaluation::Estimate(13900)
    );
}

#[test]
fn result_default_is_equal() {
    let evaluator = ResultEvaluator::new();
    assert_eq!(
        evaluator.evaluate(&Board::default()).unwrap(),
        Evaluation::Estimate(0)
    );
}

#[test]
fn result_white_checkmate_is_certain() {
    let board = Board::from_art(
        "...K...r\n\
         ........\n\
         ...k....\n\
         ........\n\
         ........\n\
         ........\n\
         ........\n",
    )
    .unwrap();
    let evaluator = ResultEvaluator::new();
    assert_eq!(
        evaluator.evaluate(&board).unwrap(),
        Evaluation::Certain(ChessResult::Checkmate(Side::White), 0)
    );
}

#[test]
fn result_black_checkmate_is_certain() {
    let mut board = Board::from_art(
        "...k...R\n\
         ........\n\
         ...K....\n\
         ........\n\
         ........\n\
         ........\n\
         ........\n",
    )
    .unwrap();
    board.flip_current_side();
    let evaluator = ResultEvaluator::new();
    assert_eq!(
        evaluator.evaluate(&board).unwrap(),
        Evaluation::Certain(ChessResult::Checkmate(Side::Black), 0)
    );
}

#[test]
fn deepen_moves_a_certain_result_one_ply_out() {
    let certain = Evaluation::Certain(ChessResult::Draw, 4);
    assert_eq!(certain.deepen(), Evaluation::Certain(ChessResult::Draw, 5));

    let estimate = Evaluation::Estimate(17);
    assert_eq!(estimate.deepen(), Evaluation::Estimate(17));
}

#[test]
fn evaluations_order_toward_white() {
    assert!(Evaluation::Estimate(10) > Evaluation::Estimate(-10));
    // Any non-negative estimate beats a certain draw.
    assert!(Evaluation::Estimate(0) > Evaluation::Certain(ChessResult::Draw, 1));
    assert!(Evaluation::Estimate(-1) < Evaluation::Certain(ChessResult::Draw, 1));
    // Mate against Black beats any estimate; mate against White loses.
    assert!(
        Evaluation::Certain(ChessResult::Checkmate(Side::Black), 9) > Evaluation::Estimate(5000)
    );
    assert!(
        Evaluation::Certain(ChessResult::Checkmate(Side::White), 9) < Evaluation::Estimate(-5000)
    );
    // The mating side prefers the shorter mate.
    assert!(
        Evaluation::Certain(ChessResult::Checkmate(Side::Black), 2)
            > Evaluation::Certain(ChessResult::Checkmate(Side::Black), 5)
    );
    // The mated side prefers the longer mate.
    assert!(
        Evaluation::Certain(ChessResult::Checkmate(Side::White), 5)
            > Evaluation::Certain(ChessResult::Checkmate(Side::White), 2)
    );
}
