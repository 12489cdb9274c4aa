use std::str::FromStr;

use chess::Board;
use pica::board::PieceKind;
use pica::eval::{eval, evaluate, is_isolated, is_passed, ColoredPiece};

#[test]
fn sanity_check() {
    assert!(eval(&Board::from_str("1qkq4/2q5/8/8/8/8/5PPP/7K w - - 0 1").unwrap()) < -2000);
    assert!(eval(&Board::from_str("k7/ppp5/8/8/8/8/5Q2/4QKQ1 w - - 0 1").unwrap()) > 2000);

    // Test for passed pawn scores
    println!("{} - {}", eval(&Board::from_str("6k1/8/8/8/8/P7/8/6K1 w - - 0 1").unwrap()), 198);
    println!("{} - {}", eval(&Board::from_str("6k1/8/8/8/P7/8/8/6K1 w - - 0 1").unwrap()), 176);
    println!("{} - {}", eval(&Board::from_str("6k1/8/8/P7/8/8/8/6K1 w - - 0 1").unwrap()), 187);
    println!("{} - {}", eval(&Board::from_str("6k1/8/P7/8/8/8/8/6K1 w - - 0 1").unwrap()), 228);
    println!("{} - {}", eval(&Board::from_str("6k1/P7/8/8/8/8/8/6K1 w - - 0 1").unwrap()), 337);
    println!("{} - {}", eval(&Board::from_str("Q7/6k1/8/8/8/8/8/6K1 w - - 0 1").unwrap()), 915);
}

#[test]
fn start_position_scores_the_tempo_bonus() {
    let e = eval(&Board::default());
    assert!((0..=30).contains(&e));
    assert_eq!(e, 10);
    let black = Board::from_str("rnbqkbnr/pppppppp/8/8/8/8/PPPPPPPP/RNBQKBNR b KQkq - 0 1").unwrap();
    assert_eq!(eval(&black), 10);
}

#[test]
fn lone_pawn_scores_exactly() {
    // a2 pawn: 82 - 35 in the midgame, 94 + 13 in the endgame, isolated
    // (-20 / -10), passed with no bonus on its second rank; phase 0.
    let w = Board::from_str("4k3/8/8/8/8/8/P7/4K3 w - - 0 1").unwrap();
    assert_eq!(eval(&w), 97);
    let b = Board::from_str("4k3/8/8/8/8/8/P7/4K3 b - - 0 1").unwrap();
    assert_eq!(eval(&b), -97);
}

#[test]
fn mirrored_positions_score_alike() {
    let w = Board::from_str("4k3/8/8/8/8/8/P7/4K3 w - - 0 1").unwrap();
    let b = Board::from_str("4k3/p7/8/8/8/8/8/4K3 b - - 0 1").unwrap();
    assert_eq!(eval(&w), eval(&b));
}

#[test]
fn passed_pawn_bonus_grows_with_rank() {
    let a3 = eval(&Board::from_str("6k1/8/8/8/8/P7/8/6K1 w - - 0 1").unwrap());
    let a7 = eval(&Board::from_str("6k1/P7/8/8/8/8/8/6K1 w - - 0 1").unwrap());
    assert!(a7 > a3);
}

#[test]
fn evaluate_takes_plain_squares() {
    let mut squares = vec![None; 64];
    squares[4] = Some(ColoredPiece { kind: PieceKind::King, white: true });
    squares[60] = Some(ColoredPiece { kind: PieceKind::King, white: false });
    squares[8] = Some(ColoredPiece { kind: PieceKind::Pawn, white: true });
    assert_eq!(evaluate(&squares, true), 97);
    assert_eq!(evaluate(&squares, false), -97);
    // a full phase counts the midgame alone: four queens give 24
    for sq in [16usize, 17, 18] {
        squares[sq] = Some(ColoredPiece { kind: PieceKind::Queen, white: true });
    }
    squares[47] = Some(ColoredPiece { kind: PieceKind::Queen, white: false });
    assert!(evaluate(&squares, true) > 1500);
}

#[test]
fn passed_and_isolated_pawns_are_detected() {
    let mut squares = vec![None; 64];
    // white pawn on a2, black knight on b5
    squares[8] = Some(ColoredPiece { kind: PieceKind::Pawn, white: true });
    assert!(is_passed(&squares, 8, true));
    assert!(is_isolated(&squares, 8, true));
    squares[33] = Some(ColoredPiece { kind: PieceKind::Knight, white: false });
    assert!(!is_passed(&squares, 8, true));
    // a friendly pawn on b3 ends the isolation
    squares[17] = Some(ColoredPiece { kind: PieceKind::Pawn, white: true });
    assert!(!is_isolated(&squares, 8, true));
    // a black pawn on h7 is passed toward rank 1
    squares[55] = Some(ColoredPiece { kind: PieceKind::Pawn, white: false });
    assert!(is_passed(&squares, 55, false));
}

#[test]
fn huge_material_is_clamped_below_mate_scores() {
    let mut squares = vec![None; 64];
    squares[7] = Some(ColoredPiece { kind: PieceKind::King, white: true });
    squares[0] = Some(ColoredPiece { kind: PieceKind::King, white: false });
    for sq in 40..64usize {
        squares[sq] = Some(ColoredPiece { kind: PieceKind::Queen, white: true });
    }
    assert_eq!(evaluate(&squares, true), 9744);
    assert_eq!(evaluate(&squares, false), -9744);
}
