use std::str::FromStr;
use std::time::Instant;

use chess::{Board, ChessMove, MoveGen};
use pica::board::{Move, PieceKind};
use pica::engine::{is_mate_score, play_line, printpv, Engine, MATE_SCORE, OO};
use pica::eval::eval;
use pica::history::History;
use pica::ordering::SearchInfo;
use pica::time::TimeManager;
use pica::tt::{NodeType, TranspositionEntry};

fn uci(m: &Move) -> String {
    ChessMove::new(
        chess::ALL_SQUARES[m.from as usize],
        chess::ALL_SQUARES[m.to as usize],
        m.promotion.map(|k| chess::ALL_PIECES[k.index()]),
    )
    .to_string()
}

fn to_move(m: ChessMove) -> Move {
    Move {
        from: m.get_source().to_int(),
        to: m.get_dest().to_int(),
        promotion: m.get_promotion().map(|p| PieceKind::from_index(p.to_index())),
    }
}

fn depth_limit(d: u8) -> TimeManager {
    TimeManager {
        max_depth: Some(d),
        min_depth: None,
        max_nodes: None,
        board_time: None,
        max_allowed_time_now: None,
    }
}

fn root_score(fen: &str, depth: u8) -> i32 {
    let board = Board::from_str(fen).unwrap();
    let mut eng = Engine::new(16);
    let mut sinfo = SearchInfo::new();
    eng.negamax(&board, -OO, OO, depth, 0, &mut sinfo, History::new()).0
}

#[test]
fn mate_in_one_scores_a_win() {
    let s = root_score("6k1/5ppp/8/8/8/8/5PPP/R5K1 w - - 0 1", 2);
    assert!(s >= MATE_SCORE);
}

#[test]
fn mate_in_two_scores_a_win() {
    let s = root_score("7k/8/5K2/8/8/8/8/6R1 w - - 0 1", 3);
    assert!(s >= MATE_SCORE);
}

#[test]
fn mated_side_scores_a_loss() {
    assert_eq!(root_score("R5k1/5ppp/8/8/8/8/5PPP/6K1 b - - 0 1", 2), -OO);
}

#[test]
fn stalemate_scores_a_draw() {
    assert_eq!(root_score("7k/5Q2/6K1/8/8/8/8/8 b - - 0 1", 2), 0);
}

#[test]
fn back_rank_mate_is_found() {
    let board = Board::from_str("6k1/5ppp/8/8/8/8/5PPP/R5K1 w - - 0 1").unwrap();
    let mut eng = Engine::new(16);
    let mv = eng.start(board, &depth_limit(4), History::new()).unwrap();
    assert_eq!(uci(&mv), "a1a8");
}

#[test]
fn rook_endgame_keeps_the_rook() {
    let board = Board::from_str("3k4/8/4K3/2R5/8/8/8/8 w - - 0 1").unwrap();
    let mut eng = Engine::new(16);
    let mv = eng.start(board, &depth_limit(5), History::new()).unwrap();
    let after = board.make_move_new(ChessMove::from_str(&uci(&mv)).unwrap());
    let rook_sq = chess::ALL_SQUARES[mv.to as usize];
    assert!(MoveGen::new_legal(&after).all(|r| r.get_dest() != rook_sq));
}

#[test]
fn search_leaves_a_deep_legal_root_entry() {
    let board = Board::default();
    let mut eng = Engine::new(16);
    let d = 4;
    let mv = eng.start(board, &depth_limit(d), History::new()).unwrap();
    assert_eq!(eng.last_depth, d);
    let e = eng.tt.get(board.get_hash());
    assert!(e.is_valid(board.get_hash()));
    assert!(e.depth >= d);
    let best = e.best_move.unwrap();
    assert_eq!(best, mv);
    assert!(board.legal(ChessMove::from_str(&uci(&best)).unwrap()));
}

#[test]
fn principal_variation_is_a_legal_line() {
    let mut board = Board::from_str("r1bqkbnr/pppp1ppp/2n5/4p3/4P3/5N2/PPPP1PPP/RNBQKB1R w KQkq - 2 3").unwrap();
    let mut eng = Engine::new(16);
    eng.info = true;
    let mv = eng.start(board, &depth_limit(5), History::new());
    let pv = printpv(&eng.tt, &board, mv);
    assert!(!pv.is_empty());
    assert_eq!(pv[0], mv.unwrap());
    for m in &pv {
        let cm = ChessMove::from_str(&uci(m)).unwrap();
        assert!(board.legal(cm));
        board = board.make_move_new(cm);
    }
    assert_eq!(eng.reports.len(), 5);
    assert!(eng.reports.iter().all(|r| !r.pv.is_empty()));
}

#[test]
fn repetition_at_the_root_scores_a_loss() {
    let board = Board::default();
    let key = board.get_hash();
    let mut h = History::new();
    for k in [key, 1, key, 2, key] {
        h.push_hist(k);
    }
    assert!(h.is_three_rep());
    let mut eng = Engine::new(16);
    let mut sinfo = SearchInfo::new();
    assert_eq!(eng.negamax(&board, -OO, OO, 3, 0, &mut sinfo, h).0, -OO);
}

#[test]
fn quiet_position_quiescence_is_the_evaluation() {
    let board = Board::default();
    let mut eng = Engine::new(16);
    let sinfo = SearchInfo::new();
    assert_eq!(eng.qsearch(&board, -OO, OO, &sinfo, 0).0, eval(&board));
    // stand pat at or above beta returns beta
    assert_eq!(eng.qsearch(&board, -OO, 5, &sinfo, 0).0, 5);
}

#[test]
fn move_time_cap_returns_quickly_with_a_report() {
    let mut eng = Engine::new(16);
    eng.info = true;
    let tm = TimeManager {
        max_depth: None,
        min_depth: None,
        max_nodes: None,
        board_time: None,
        max_allowed_time_now: Some(50),
    };
    let t0 = Instant::now();
    let mv = eng.start(Board::default(), &tm, History::new());
    assert!(t0.elapsed().as_millis() < 200);
    assert!(mv.is_some());
    assert!(!eng.reports.is_empty());
}

#[test]
fn one_mib_table_is_fresh() {
    let board = Board::default();
    let mut eng = Engine::new(1);
    assert!(eng.tt.len() >= (1 << 20) / pica::tt::ENTRY_BYTES);
    eng.start(board, &depth_limit(2), History::new());
    assert!(eng.tt.get(board.get_hash()).is_valid(board.get_hash()));
    let eng = Engine::new(1);
    assert!(!eng.tt.get(board.get_hash()).is_valid(board.get_hash()));
}

#[test]
fn mate_scores_are_recognised() {
    assert!(is_mate_score(OO - 255));
    assert!(!is_mate_score(OO - 256));
    assert!(is_mate_score(-OO + 3));
    assert!(!is_mate_score(0));
}

#[test]
fn play_line_applies_legal_moves_only() {
    let board = Board::default();
    let e4 = to_move(ChessMove::from_str("e2e4").unwrap());
    let e5 = to_move(ChessMove::from_str("e7e5").unwrap());
    let (b, h) = play_line(&board, &vec![e4, e5], History::new()).unwrap();
    let expected = Board::from_str("rnbqkbnr/pppp1ppp/8/4p3/4P3/8/PPPP1PPP/RNBQKBNR w KQkq e6 0 2").unwrap();
    assert_eq!(b.get_hash(), expected.get_hash());
    assert_ne!(b.get_hash(), board.get_hash());
    assert!(!h.is_three_rep());
    let illegal = to_move(ChessMove::from_str("e2e5").unwrap());
    assert!(play_line(&board, &vec![e4, illegal], History::new()).is_none());
}

#[test]
fn threefold_in_play_line_is_recorded() {
    let board = Board::from_str("8/8/k3K3/8/8/2Q5/8/8 w - - 5 9").unwrap();
    let mut line = Vec::new();
    let mut b = board;
    for s in ["Kd6", "Kb6", "Qb3+", "Ka5", "Kd5", "Ka6", "Qc2", "Ka5", "Qb3", "Ka6", "Qc2", "Ka5", "Qb3"] {
        let m = ChessMove::from_san(&b, s).unwrap();
        line.push(to_move(m));
        b = b.make_move_new(m);
    }
    let mut h = History::new();
    h.push_hist(board.get_hash());
    let (_, h) = play_line(&board, &line, h).unwrap();
    assert!(h.is_three_rep());
}

#[test]
fn stored_mate_scores_shift_by_ply() {
    let board = Board::default();
    let key = board.get_hash();
    let mut eng = Engine::new(16);
    let e = TranspositionEntry { key, depth: 10, node_type: NodeType::Exact, value: OO - 10, best_move: None };
    eng.tt.set(e);
    let mut sinfo = SearchInfo::new();
    assert_eq!(eng.negamax(&board, -OO, OO, 2, 3, &mut sinfo, History::new()).0, OO - 13);
    eng.tt.set(TranspositionEntry { value: -OO + 10, ..e });
    assert_eq!(eng.negamax(&board, -OO, OO, 2, 3, &mut sinfo, History::new()).0, -OO + 13);
    eng.tt.set(TranspositionEntry { value: 42, ..e });
    assert_eq!(eng.negamax(&board, -OO, OO, 2, 3, &mut sinfo, History::new()).0, 42);
    // a lower bound below beta does not end the search
    eng.tt.set(TranspositionEntry { value: 42, node_type: NodeType::LowerBound, ..e });
    let s = eng.negamax(&board, -OO, OO, 2, 3, &mut sinfo, History::new()).0;
    assert!(s > -OO && s < OO);
    assert_eq!(eng.tt.get(key).depth, 2);
}

#[test]
fn quiescence_scores_mate_and_stalemate() {
    let mut eng = Engine::new(16);
    let sinfo = SearchInfo::new();
    let mated = Board::from_str("R5k1/5ppp/8/8/8/8/5PPP/6K1 b - - 0 1").unwrap();
    assert_eq!(eng.qsearch(&mated, -OO, OO, &sinfo, 3).0, -OO + 3);
    let stale = Board::from_str("7k/5Q2/6K1/8/8/8/8/8 b - - 0 1").unwrap();
    assert_eq!(eng.qsearch(&stale, -OO, OO, &sinfo, 3).0, 0);
}

#[test]
fn quiet_cutoff_becomes_the_first_killer() {
    // white's best move is quiet and fails high against a low beta
    let board = Board::from_str("7k/8/5K2/8/8/8/8/6R1 w - - 0 1").unwrap();
    let mut eng = Engine::new(16);
    let mut sinfo = SearchInfo::new();
    let r = eng.negamax(&board, -OO, -5000, 2, 4, &mut sinfo, History::new()).0;
    assert!(r >= -5000);
    let e = eng.tt.get(board.get_hash());
    assert_eq!(e.node_type, NodeType::LowerBound);
    assert_eq!(e.value, r);
    let m = e.best_move.unwrap();
    assert!(board.piece_on(chess::ALL_SQUARES[m.to as usize]).is_none());
    assert_eq!(sinfo.killers[4], [Some(m), None]);
}

#[test]
fn principal_variation_follows_the_table() {
    let board = Board::default();
    let mut eng = Engine::new(16);
    let e4 = to_move(ChessMove::from_str("e2e4").unwrap());
    let e5 = to_move(ChessMove::from_str("e7e5").unwrap());
    let after = board.make_move_new(ChessMove::from_str("e2e4").unwrap());
    eng.tt.set(TranspositionEntry { key: after.get_hash(), depth: 1, node_type: NodeType::Exact, value: 0, best_move: Some(e5) });
    assert_eq!(printpv(&eng.tt, &board, Some(e4)), vec![e4, e5]);
    // an entry too shallow for its place in the walk ends it
    let after2 = after.make_move_new(ChessMove::from_str("e7e5").unwrap());
    let nf3 = to_move(ChessMove::from_str("g1f3").unwrap());
    eng.tt.set(TranspositionEntry { key: after2.get_hash(), depth: 1, node_type: NodeType::Exact, value: 0, best_move: Some(nf3) });
    assert_eq!(printpv(&eng.tt, &board, Some(e4)), vec![e4, e5]);
    eng.tt.set(TranspositionEntry { key: after2.get_hash(), depth: 2, node_type: NodeType::Exact, value: 0, best_move: Some(nf3) });
    assert_eq!(printpv(&eng.tt, &board, Some(e4)), vec![e4, e5, nf3]);
}

#[test]
fn quiescence_at_the_last_ply_still_scores_mate() {
    let mut eng = Engine::new(16);
    let sinfo = SearchInfo::new();
    let mated = Board::from_str("R5k1/5ppp/8/8/8/8/5PPP/6K1 b - - 0 1").unwrap();
    assert_eq!(eng.qsearch(&mated, -OO, OO, &sinfo, 255).0, -OO + 255);
}

#[test]
fn min_depth_forces_a_first_iteration_and_a_move() {
    let board = Board::default();
    let mut eng = Engine::new(16);
    let tm = TimeManager {
        max_depth: None,
        min_depth: Some(3),
        max_nodes: None,
        board_time: None,
        max_allowed_time_now: Some(0),
    };
    let mv = eng.start(board, &tm, History::new()).unwrap();
    assert!(eng.last_depth >= 2);
    assert_eq!(eng.tt.get(board.get_hash()).best_move, Some(mv));
}
