use std::str::FromStr;

use chess::Board;
use pica::time::{TimeControl, TimeManager};

fn capped(ms: u32) -> TimeManager {
    TimeManager { max_depth: None, min_depth: None, max_nodes: None, board_time: None, max_allowed_time_now: Some(ms) }
}

#[test]
fn soft_gate_stops_on_projected_time() {
    let tm = capped(5000);
    assert!(tm.can_continue_soft(3, 625));
    assert!(!tm.can_continue_soft(3, 626));
    // a thirtieth of the default clock is 10000 ms
    let tm = TimeManager { max_allowed_time_now: None, ..tm };
    assert!(tm.can_continue_soft(3, 1250));
    assert!(!tm.can_continue_soft(3, 1251));
}

#[test]
fn soft_gate_is_monotone_in_time() {
    let tm = capped(50);
    let mut stopped = false;
    for t in 0..100u64 {
        let go = tm.can_continue_soft(5, t);
        if stopped {
            assert!(!go);
        }
        stopped |= !go;
    }
    assert!(stopped);
    assert!(!tm.can_continue_soft(5, u64::MAX));
}

#[test]
fn soft_gate_depth_limits() {
    let tm = TimeManager::test_preset();
    assert!(tm.can_continue_soft(7, 1_000_000));
    assert!(!tm.can_continue_soft(8, 1_000_000));
    let tm = TimeManager { max_depth: Some(4), ..capped(5000) };
    assert!(tm.can_continue_soft(4, 0));
    assert!(!tm.can_continue_soft(5, 0));
}

#[test]
fn hard_gate_limits() {
    let tm = TimeManager { max_nodes: Some(1000), ..capped(5000) };
    assert!(tm.can_continue_hard(3, 1000, 5000));
    assert!(!tm.can_continue_hard(3, 1001, 10));
    assert!(!tm.can_continue_hard(3, 10, 5001));
    let tm = TimeManager { max_allowed_time_now: None, ..tm };
    assert!(tm.can_continue_hard(3, 10, 15000));
    assert!(!tm.can_continue_hard(3, 10, 15001));
}

#[test]
fn time_controls_become_limits() {
    let white = Board::default();
    let black = Board::from_str("rnbqkbnr/pppppppp/8/8/4P3/8/PPPP1PPP/RNBQKBNR b KQkq e3 0 1").unwrap();
    let left = TimeControl::TimeLeft { white_time: Some(60_000), black_time: Some(30_000) };
    assert_eq!(TimeManager::from_uci(&left, &white).board_time, Some(60_000));
    assert_eq!(TimeManager::from_uci(&left, &black).board_time, Some(30_000));
    assert_eq!(TimeManager::from_uci(&TimeControl::MoveTime(50), &white).max_allowed_time_now, Some(50));
    assert_eq!(TimeManager::from_uci(&TimeControl::MoveTime(-5), &white).max_allowed_time_now, Some(0));
    let inf = TimeManager::from_uci(&TimeControl::Infinite, &white);
    assert_eq!(inf, TimeManager { max_allowed_time_now: None, ..capped(0) });
    let none = TimeManager::without_time_control();
    assert_eq!(none.max_allowed_time_now, Some(5000));
    let limited = none.with_search_limits(Some(6), Some(100));
    assert_eq!(limited.max_depth, Some(6));
    assert_eq!(limited.max_nodes, Some(100));
    assert_eq!(limited.max_allowed_time_now, Some(5000));
}
