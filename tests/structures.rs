use std::str::FromStr;

use chess::{Board, ChessMove};
use pica::history::History;
use pica::tt::{NodeType, TranspositionEntry, TT};

#[test]
fn test_tt() {
    // No matter what, a default TE is not valid
    let default = TranspositionEntry::default();
    assert!(!default.is_valid(0));
    assert!(!default.is_valid(1));

    let a = TranspositionEntry {
        depth: 2,
        key: 85,
        node_type: NodeType::Exact,
        value: 0,
        ..Default::default()
    };

    assert!(a.is_valid(85));
    assert!(!a.is_valid(86));

    let mut t = TT::new_with_size_mb(32);
    assert!(!t.get(a.key).is_valid(a.key));
    t.set(a);

    assert_eq!(t.get(a.key), a);
    assert_eq!(t.get(a.key).best_move, a.best_move);
    assert!(t.get(a.key).is_valid(a.key));
}

#[test]
fn test_three_rep() {
    let mut b = Board::from_str("8/8/k3K3/8/8/2Q5/8/8 w - - 5 9").unwrap();
    let mut h = History::new();
    h.push_hist(b.get_hash());

    for mvstr in [
        "Kd6", "Kb6", "Qb3+", "Ka5", "Kd5", "Ka6", "Qc2", "Ka5", "Qb3", "Ka6", "Qc2", "Ka5",
        "Qb3",
    ] {
        assert!(!h.is_three_rep());

        let mv = ChessMove::from_san(&b, mvstr).unwrap();
        b = b.make_move_new(mv);
        h.push_hist(b.get_hash());
    }

    assert!(h.is_three_rep());
}

#[test]
fn fresh_history_reports_no_repetition() {
    assert!(!History::new().is_three_rep());
    assert!(!History::default().is_three_rep());
}

#[test]
fn three_pushes_of_a_key_make_a_repetition() {
    let mut h = History::new();
    for k in [100u64, 7, 100, 8] {
        h.push_hist(k);
        assert!(!h.is_three_rep());
    }
    h.push_hist(100);
    assert!(h.is_three_rep());
}

#[test]
fn repeated_newest_key_is_not_pushed_again() {
    let mut h = History::new();
    h.push_hist(100);
    h.push_hist(100);
    h.push_hist(100);
    assert!(!h.is_three_rep());
    // the copying push ignores a repeat of the newest hash too
    let h2 = h.push_hist_new(100).push_hist_new(100);
    assert!(!h2.is_three_rep());
    let h3 = h.push_hist_new(7).push_hist_new(100).push_hist_new(8).push_hist_new(100);
    assert!(h3.is_three_rep());
}

#[test]
fn table_round_trip_survives_other_slots() {
    let mut t = TT::new_with_size_mb(1);
    let n = t.len() as u64;
    assert_eq!(n, 65536);
    let e = TranspositionEntry { key: 5, depth: 3, node_type: NodeType::LowerBound, value: -40, best_move: None };
    t.set(e);
    t.set(TranspositionEntry { key: 6, ..e });
    assert_eq!(t.get(5), e);
    // a store into the same slot replaces the entry
    t.set(TranspositionEntry { key: 5 + n, ..e });
    assert!(!t.get(5).is_valid(5));
    assert_eq!(t.get(5), TranspositionEntry::default());
    assert_eq!(t.get(5 + n).key, 5 + n);
}

#[test]
fn table_size_rounds_up_to_a_power_of_two() {
    assert_eq!(TT::new_with_size_mb(1).len(), 65536);
    assert_eq!(TT::new_with_size_mb(3).len(), 131072);
    assert_eq!(TT::new_with_size_mb(4).len(), 262144);
    assert_eq!(std::mem::size_of::<TranspositionEntry>(), pica::tt::ENTRY_BYTES);
}
