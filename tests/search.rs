use std::str::FromStr;

use chess::{Board, ChessMove, Color};
use pica::board::Move;
use pica::engine::Engine;
use pica::history::History;
use pica::time::TimeManager;

fn uci(m: &Move) -> String {
    ChessMove::new(
        chess::ALL_SQUARES[m.from as usize],
        chess::ALL_SQUARES[m.to as usize],
        m.promotion.map(|k| chess::ALL_PIECES[k.index()]),
    )
    .to_string()
}

/// Parses an EPD string and returns the FEN and the best move as a tuple
fn parse_epd(epd: &str) -> (&str, &str) {
    let parts: Vec<&str> = epd.split(" bm ").collect();
    let fen = parts[0];
    let best_move = parts[1].split(';').next().unwrap().trim();
    (fen, best_move)
}

fn search_preset(board: Board) -> Move {
    let mut eng = Engine::new(256);
    eng.info = true;
    eng.start(board, &TimeManager::test_preset(), History::new())
        .expect("a move")
}

fn next_move_assert_san(fen: &str, mv: &str) {
    let board = Board::from_str(fen).unwrap();
    let found = search_preset(board);
    let best = ChessMove::from_san(&board, mv).unwrap();
    assert_eq!(uci(&found), best.to_string(), "{}", format!("FEN: {}", board));
}

fn next_move_assert_uci(fen: &str, mv: &str) {
    let board = Board::from_str(fen).unwrap();
    let found = search_preset(board);
    let best = ChessMove::from_str(mv).unwrap();
    assert_eq!(uci(&found), best.to_string(), "{}", format!("FEN: {}", board));
}

/// Two copies of the engine play from `fen`; the given side must mate
/// within 64 moves.
fn arena(fen: &str, winning_side: Color) {
    let mut board = Board::from_str(fen).unwrap();
    let mut eng = Engine::new(128);
    for _ in 0..64 {
        match board.status() {
            chess::BoardStatus::Checkmate => {
                assert_eq!(!board.side_to_move(), winning_side);
                return;
            }
            chess::BoardStatus::Stalemate => panic!(),
            chess::BoardStatus::Ongoing => {}
        }
        let mv = eng
            .start(board, &TimeManager::test_preset(), History::new())
            .expect("a move");
        board = board.make_move_new(ChessMove::from_str(&uci(&mv)).unwrap());
    }
}

#[test]
fn test_arena() {
    arena("5K1k/5Q2/8/8/8/8/8/8 w - - 0 1", Color::White);
    arena("5k2/7K/5q2/8/8/8/8/8 b - - 1 1", Color::Black);
    arena("8/5k2/8/8/8/2K5/4Q3/8 w - - 0 1", Color::White);
}

#[test]
fn endgames() {
    let positions = "3k4/8/4K3/2R5/8/8/8/8 w - - bm Rc1
    4k3/8/4K3/8/8/8/2R5/8 w - - 2 2 bm Rc8
    1k6/7R/2K5/8/8/8/8/8 w - - bm Rh8
    8/3k4/8/8/3PK3/8/8/8 w - - bm Kd5
    2k5/8/1K1P4/8/8/8/8/8 w - - bm Kc6"
        .lines();

    for pos in positions {
        let (fen, best_move) = parse_epd(pos);
        next_move_assert_san(fen.trim(), best_move);
    }
}

#[test]
fn swizzles_tests() {
    let positions = "3k4/8/3K4/8/5R2/8/8/8 w - - 0 1 bm f4f8
    8/8/8/5r2/8/3k4/8/3K4 b - - 0 1 bm f5f1
    1k1r2R1/8/1K6/8/8/8/8/8 w - - 0 1 bm g8d8
    8/8/8/8/8/1k6/8/1K1R2r1 b - - 0 1 bm g1d1
    8/8/8/8/8/8/7R/1k2K2R w K - 0 1 bm e1g1
    1K2k2r/7r/8/8/8/8/8/8 b k - 0 1 bm e8g8
    8/8/8/8/8/8/R7/R3K2k w Q - 0 1 bm e1c1
    r3k2K/r7/8/8/8/8/8/8 b q - 0 1 bm e8c8
    kb4r1/p7/8/8/8/6q1/8/R6K w - - 0 1 bm a1a7
    r6k/8/6Q1/8/8/8/P7/KB4R1 b - - 0 1 bm a8a2
    8/8/8/8/8/8/p7/k1K5 w - - 0 1 bm c1c2
    K1k5/P7/8/8/8/8/8/8 b - - 0 1 bm c8c7
    K1k5/P1q5/8/B7/8/8/8/8 w - - 0 1 bm a5c7
    8/8/8/8/b7/8/p1Q5/k1K5 b - - 0 1 bm a4c2
    6n1/5P1k/5Q2/8/8/8/8/7K w - - 0 1 bm f7f8n
    7k/8/8/8/8/5q2/5p1K/6N1 b - - 0 1 bm f2f1n"
        .lines();

    for pos in positions {
        let (fen, best_move) = parse_epd(pos);
        next_move_assert_uci(fen.trim(), best_move);
    }
}
