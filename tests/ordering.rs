use std::str::FromStr;

use chess::{Board, ChessMove};
use pica::board::{Move, PieceKind};
use pica::ordering::{score_move, BoardStatus, MoveGenOrdered, SearchInfo, HASH_VALUE, KILLER_VALUE};

fn to_move(s: &str) -> Move {
    let m = ChessMove::from_str(s).unwrap();
    Move {
        from: m.get_source().to_int(),
        to: m.get_dest().to_int(),
        promotion: m.get_promotion().map(|p| PieceKind::from_index(p.to_index())),
    }
}

#[test]
fn captures_score_by_victim_and_attacker() {
    let board = Board::from_str("4k3/8/8/3q4/4P3/8/8/4K3 w - - 0 1").unwrap();
    let sinfo = SearchInfo::new();
    // pawn takes queen
    assert_eq!(score_move(to_move("e4d5"), &board, &sinfo, 0, None), 55);
    // quiet pawn push
    assert_eq!(score_move(to_move("e4e5"), &board, &sinfo, 0, None), 0);
    // the hash move comes first whatever it is
    let push = to_move("e4e5");
    assert_eq!(score_move(push, &board, &sinfo, 0, Some(push)), HASH_VALUE);
}

#[test]
fn killers_score_below_captures() {
    let board = Board::from_str("4k3/8/8/3q4/4P3/8/8/4K3 w - - 0 1").unwrap();
    let mut sinfo = SearchInfo::new();
    let push = to_move("e4e5");
    let king = to_move("e1d2");
    sinfo.killers[3] = [Some(push), Some(king)];
    assert_eq!(score_move(push, &board, &sinfo, 3, None), KILLER_VALUE);
    assert_eq!(score_move(king, &board, &sinfo, 3, None), KILLER_VALUE - 10);
    assert_eq!(score_move(push, &board, &sinfo, 4, None), 0);
}

#[test]
fn producer_hands_out_best_first() {
    let board = Board::from_str("4k3/8/8/3q4/4P3/8/8/4K3 w - - 0 1").unwrap();
    let sinfo = SearchInfo::new();
    let mut g = MoveGenOrdered::new(&board, &sinfo, 0, None, false);
    assert_eq!(g.status(), BoardStatus::Ongoing);
    assert_eq!(g.len, g.real_len);
    assert_eq!(g.pick_next(), Some(to_move("e4d5")));
    assert_eq!(g.moves.len(), g.len - 1);
}

#[test]
fn captures_only_producer_keeps_the_real_count() {
    let board = Board::from_str("4k3/8/8/3q4/4P3/8/8/4K3 w - - 0 1").unwrap();
    let sinfo = SearchInfo::new();
    let g = MoveGenOrdered::new(&board, &sinfo, 0, None, true);
    assert_eq!(g.len, 1);
    assert!(g.real_len > 1);
    assert_eq!(g.status(), BoardStatus::Ongoing);
}

#[test]
fn producer_reports_mate_and_stalemate() {
    let sinfo = SearchInfo::new();
    let mated = Board::from_str("R5k1/5ppp/8/8/8/8/5PPP/6K1 b - - 0 1").unwrap();
    assert_eq!(MoveGenOrdered::new(&mated, &sinfo, 0, None, false).status(), BoardStatus::Checkmate);
    let stale = Board::from_str("7k/5Q2/6K1/8/8/8/8/8 b - - 0 1").unwrap();
    assert_eq!(MoveGenOrdered::new(&stale, &sinfo, 0, None, true).status(), BoardStatus::Stalemate);
}
