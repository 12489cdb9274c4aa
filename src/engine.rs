//! The search: iterative deepening over a negamax alpha-beta search with
//! quiescence at the horizon, a transposition table, move ordering and a
//! check extension.
use vstd::prelude::*;
use crate::board::{Move, board_hash, checkers, make_move, piece_on, legal_moves, hash_of,
    checkers_of, legal_moves_of, after_move, piece_of};
use crate::eval::{eval, board_eval};
use crate::history::{History, three_rep_spec};
use crate::ordering::{MoveGenOrdered, SearchInfo, BoardStatus, MAX_MOVES, items_sound,
    is_first_max, lemma_remove_sound, has_capture, lemma_collect_none, lemma_collect_all,
    lemma_collect_targets, collect_spec};
use crate::stats::Stats;
use crate::time::{TimeManager, now, elapsed_ms};
use crate::tt::{TT, TranspositionEntry, NodeType, get_spec, lemma_get_within,
    lemma_set_within};

verus! {

/// A score beyond every evaluation: the value of being mated at the root.
pub const OO: i32 = 10000;
/// Maximum search ply.
pub const MAX_PLY: u8 = 200;
/// Scores at least this far from zero are mate scores.
pub const MATE_SCORE: i32 = 9745;
/// Plies of principal variation reported at most.
pub const MAX_PV: usize = 64;

pub open spec fn is_mate_spec(score: int) -> bool {
    score >= MATE_SCORE || score <= -MATE_SCORE
}

/// Whether a score encodes a forced mate: `|score| >= OO - 255`.
pub fn is_mate_score(score: i32) -> (r: bool)
    ensures
        r == is_mate_spec(score as int),
{
    score >= MATE_SCORE || score <= -MATE_SCORE
}

/// A stored score seen from a node `ply` plies from the root: mate scores
/// move toward zero by `ply`, other scores stay.
pub open spec fn probe_value(value: int, ply: int) -> int {
    if is_mate_spec(value) {
        if value > 0 { value - ply } else { value + ply }
    } else {
        value
    }
}

/// Whether a node is at the horizon: depth 0 out of check, or past the
/// maximum ply. Such a node is left to quiescence.
pub open spec fn horizon(b: chess::Board, depth: u8, ply: u8) -> bool {
    (depth == 0 && checkers_of(b) == 0) || ply > MAX_PLY
}

/// The depth a node searches to: one more when in check and below half the
/// maximum ply.
pub open spec fn extended_depth(b: chess::Board, depth: u8, ply: u8) -> int {
    if checkers_of(b) != 0 && ply < MAX_PLY / 2 { depth + 1 } else { depth as int }
}

/// The stand-pat score clamped into the window: `beta` when the evaluation
/// reaches it, else the larger of `alpha` and the evaluation.
pub open spec fn stand_pat(e: int, alpha: int, beta: int) -> int {
    if e >= beta { beta } else if e > alpha { e } else { alpha }
}

/// The move, when it is legal on `b`.
pub open spec fn legal_or_none(m: Option<Move>, b: chess::Board) -> Option<Move> {
    match m {
        Some(x) => if legal_moves_of(b).contains(x) { Some(x) } else { None },
        None => None,
    }
}

/// The larger of `a` and every score in `t`.
pub open spec fn max_score(a: int, t: Seq<(Move, int)>) -> int
    decreases t.len(),
{
    if t.len() == 0 {
        a
    } else {
        let m = max_score(a, t.drop_last());
        if t.last().1 > m { t.last().1 } else { m }
    }
}

/// Whether move `m` was tried.
pub open spec fn tried_has(t: Seq<(Move, int)>, m: Move) -> bool {
    exists|i: int| 0 <= i < t.len() && (#[trigger] t[i]).0 == m
}

/// Taking out another element keeps `x` in the sequence.
proof fn lemma_remove_keeps<A>(s: Seq<A>, k: int, x: A)
    requires
        0 <= k < s.len(),
        s.contains(x),
        x != s[k],
    ensures
        s.remove(k).contains(x),
{
    let j = choose|j: int| 0 <= j < s.len() && s[j] == x;
    if j < k {
        assert(s.remove(k)[j] == x);
    } else {
        assert(s.remove(k)[j - 1] == x);
    }
}

/// What one completed iteration reports.
pub struct SearchReport {
    pub depth: u8,
    pub score: i32,
    pub nodes: u64,
    pub qnodes: u64,
    pub time_ms: u64,
    pub check_extensions: u64,
    pub tt_checks: u64,
    pub tt_hits: u64,
    pub pv: Vec<Move>,
}

/// Whether `line` is a sequence of moves each legal where it is played,
/// starting from `b`.
pub open spec fn legal_line(b: chess::Board, line: Seq<Move>) -> bool
    decreases line.len(),
{
    line.len() == 0 || (legal_moves_of(b).contains(line[0])
        && legal_line(after_move(b, line[0]), line.drop_first()))
}

/// The board reached by playing `line` from `b`.
pub open spec fn play(b: chess::Board, line: Seq<Move>) -> chess::Board
    decreases line.len(),
{
    if line.len() == 0 { b } else { play(after_move(b, line[0]), line.drop_first()) }
}

proof fn lemma_line_push(b: chess::Board, line: Seq<Move>, m: Move)
    requires
        legal_line(b, line),
        legal_moves_of(play(b, line)).contains(m),
    ensures
        legal_line(b, line.push(m)),
        play(b, line.push(m)) == after_move(play(b, line), m),
    decreases line.len(),
{
    let l2 = line.push(m);
    if line.len() > 0 {
        assert(l2.drop_first() =~= line.drop_first().push(m));
        assert(l2[0] == line[0]);
        lemma_line_push(after_move(b, line[0]), line.drop_first(), m);
    } else {
        assert(l2.drop_first() =~= Seq::<Move>::empty());
        assert(l2[0] == m);
        assert(play(b, line) == b);
        assert(legal_line(after_move(b, m), l2.drop_first()));
        assert(play(after_move(b, m), l2.drop_first()) == after_move(b, m));
    }
}

/// Whether `m` is among the legal moves of `b`.
pub fn is_legal(b: &chess::Board, m: Move) -> (r: bool)
    ensures
        r == legal_moves_of(*b).contains(m),
{
    let moves = legal_moves(b);
    let mut i: usize = 0;
    while i < moves.len()
        invariant
            moves@ == legal_moves_of(*b),
            i <= moves@.len(),
            forall|k: int| 0 <= k < i ==> moves@[k] != m,
        decreases moves@.len() - i,
    {
        if moves[i] == m {
            assert(moves@[i as int] == m);
            return true;
        }
        i += 1;
    }
    false
}

/// The stored best moves followed from `b` for at most `steps` plies: each
/// is taken while the position's entry is a hit of at least `depth` (one
/// more at each ply) holding a move that is legal there.
pub open spec fn pv_walk(tt: Seq<(u64, TranspositionEntry)>, b: chess::Board, depth: int, steps: nat) -> Seq<Move>
    decreases steps,
{
    if steps == 0 {
        Seq::empty()
    } else {
        let key = hash_of(b);
        let e = get_spec(tt, key);
        if e.spec_is_valid(key) && e.depth >= depth && e.best_move is Some
            && legal_moves_of(b).contains(e.best_move->0) {
            seq![e.best_move->0] + pv_walk(tt, after_move(b, e.best_move->0), depth + 1, (steps - 1) as nat)
        } else {
            Seq::empty()
        }
    }
}

/// The principal variation of `b`: `current_best` when it is legal, then
/// the walk through the table, `MAX_PV` moves at most.
pub open spec fn pv_spec(tt: Seq<(u64, TranspositionEntry)>, b: chess::Board, current_best: Option<Move>) -> Seq<Move> {
    match current_best {
        Some(m) => if legal_moves_of(b).contains(m) {
            seq![m] + pv_walk(tt, after_move(b, m), 1, (MAX_PV - 1) as nat)
        } else {
            pv_walk(tt, b, 1, (MAX_PV - 1) as nat)
        },
        None => pv_walk(tt, b, 1, (MAX_PV - 1) as nat),
    }
}

/// The principal variation: `current_best` (when legal), then the stored
/// best move of each following position while its entry is a hit of enough
/// depth and the move is legal there, at most `MAX_PV` moves in all.
pub fn printpv(tt: &TT, board: &chess::Board, current_best: Option<Move>) -> (r: Vec<Move>)
    requires
        tt.wf(),
    ensures
        r@ == pv_spec(tt@, *board, current_best),
        legal_line(*board, r@),
        r@.len() <= MAX_PV,
        current_best is Some && legal_moves_of(*board).contains(current_best->0) ==>
            r@.len() >= 1 && r@[0] == current_best->0,
{
    let mut b = *board;
    let mut pv: Vec<Move> = Vec::new();
    proof {
        assert(pv@ =~= Seq::<Move>::empty());
    }
    if let Some(mv) = current_best {
        if is_legal(&b, mv) {
            proof { lemma_line_push(*board, pv@, mv); }
            pv.push(mv);
            b = make_move(&b, mv);
        }
    }
    let mut depth: u8 = 1;
    let mut step: usize = 0;
    proof {
        assert(pv@ + pv_walk(tt@, b, 1, (MAX_PV - 1) as nat) =~= pv_spec(tt@, *board, current_best));
    }
    while step < MAX_PV - 1
        invariant
            tt.wf(),
            depth == step + 1,
            pv@ + pv_walk(tt@, b, depth as int, (MAX_PV - 1 - step) as nat) == pv_spec(tt@, *board, current_best),
            legal_line(*board, pv@),
            b == play(*board, pv@),
            pv@.len() <= step + 1,
            step <= MAX_PV - 1,
            depth as int <= step + 1,
            current_best is Some && legal_moves_of(*board).contains(current_best->0) ==>
                pv@.len() >= 1 && pv@[0] == current_best->0,
        ensures
            pv@ == pv_spec(tt@, *board, current_best),
        decreases MAX_PV - 1 - step,
    {
        let key = board_hash(&b);
        let entry = tt.get(key);
        let next = if entry.is_valid(key) && entry.depth >= depth {
            match entry.best_move {
                Some(mv) => if is_legal(&b, mv) { Some(mv) } else { None },
                None => None,
            }
        } else {
            None
        };
        let mv = match next {
            Some(mv) => mv,
            None => {
                proof {
                    assert(pv_walk(tt@, b, depth as int, (MAX_PV - 1 - step) as nat) =~= Seq::<Move>::empty());
                    assert(pv@ + Seq::<Move>::empty() =~= pv@);
                }
                break;
            },
        };
        proof {
            lemma_line_push(*board, pv@, mv);
            let rest = pv_walk(tt@, after_move(b, mv), depth + 1, (MAX_PV - 1 - step - 1) as nat);
            assert(pv_walk(tt@, b, depth as int, (MAX_PV - 1 - step) as nat) == seq![mv] + rest);
            assert(pv@ + (seq![mv] + rest) =~= pv@.push(mv) + rest);
        }
        pv.push(mv);
        b = make_move(&b, mv);
        depth += 1;
        step += 1;
    }
    pv
}

/// The history after recording the position reached by each move of
/// `line` from `b`, in turn (a repeat of the newest hash is not recorded).
pub open spec fn record_line(b: chess::Board, line: Seq<Move>, h: Seq<u64>) -> Seq<u64>
    decreases line.len(),
{
    if line.len() == 0 {
        h
    } else {
        let next = after_move(b, line[0]);
        record_line(next, line.drop_first(), crate::history::push_spec(h, hash_of(next)))
    }
}

proof fn lemma_record_push(b: chess::Board, line: Seq<Move>, h: Seq<u64>, m: Move)
    requires
        h.len() == crate::history::HISTORY_LEN,
    ensures
        record_line(b, line.push(m), h) == crate::history::push_spec(
            record_line(b, line, h), hash_of(after_move(play(b, line), m))),
        record_line(b, line, h).len() == crate::history::HISTORY_LEN,
    decreases line.len(),
{
    let l2 = line.push(m);
    if line.len() > 0 {
        assert(l2.drop_first() =~= line.drop_first().push(m));
        assert(l2[0] == line[0]);
        let next = after_move(b, line[0]);
        lemma_record_push(next, line.drop_first(), crate::history::push_spec(h, hash_of(next)), m);
    } else {
        assert(l2.drop_first() =~= Seq::<Move>::empty());
        assert(l2[0] == m);
        let next = after_move(b, m);
        assert(record_line(next, l2.drop_first(), crate::history::push_spec(h, hash_of(next)))
            == crate::history::push_spec(h, hash_of(next)));
        assert(play(b, line) == b);
    }
}

/// Plays `moves` from `board`, recording each position reached in
/// `history`. `None`, and nothing played, when a move is not legal where it
/// stands.
pub fn play_line(board: &chess::Board, moves: &Vec<Move>, history: History) -> (r: Option<(chess::Board, History)>)
    ensures
        r is Some <==> legal_line(*board, moves@),
        match r {
            Some((b, h)) => b == play(*board, moves@) && h@ == record_line(*board, moves@, history@),
            None => true,
        },
{
    let mut b = *board;
    let mut h = history;
    let mut i: usize = 0;
    proof { h.lemma_len(); }
    while i < moves.len()
        invariant
            i <= moves@.len(),
            legal_line(*board, moves@.subrange(0, i as int)),
            b == play(*board, moves@.subrange(0, i as int)),
            h@ == record_line(*board, moves@.subrange(0, i as int), history@),
            history@.len() == crate::history::HISTORY_LEN,
        decreases moves@.len() - i,
    {
        let m = moves[i];
        let ghost done = moves@.subrange(0, i as int);
        assert(moves@.subrange(0, i + 1) =~= done.push(m));
        if !is_legal(&b, m) {
            proof { lemma_line_prefix(*board, moves@, i as int); }
            return None;
        }
        proof {
            lemma_line_push(*board, done, m);
            lemma_record_push(*board, done, history@, m);
        }
        b = make_move(&b, m);
        h.push_hist(board_hash(&b));
        i += 1;
    }
    assert(moves@.subrange(0, i as int) =~= moves@);
    Some((b, h))
}

/// A legal line has legal prefixes: if the move at `i` is not legal after
/// the first `i` moves, the line is not legal.
proof fn lemma_line_prefix(b: chess::Board, line: Seq<Move>, i: int)
    requires
        0 <= i < line.len(),
        !legal_moves_of(play(b, line.subrange(0, i))).contains(line[i]),
    ensures
        !legal_line(b, line),
    decreases i,
{
    if i > 0 && legal_moves_of(b).contains(line[0]) {
        let rest = line.drop_first();
        assert(line.subrange(0, i).drop_first() =~= rest.subrange(0, i - 1));
        assert(line.subrange(0, i)[0] == line[0]);
        assert(rest[i - 1] == line[i]);
        lemma_line_prefix(after_move(b, line[0]), rest, i - 1);
    } else if i == 0 {
        assert(line.subrange(0, 0) =~= Seq::<Move>::empty());
    }
}

/// The engine: its transposition table, statistics and iteration reports.
pub struct Engine {
    pub tt: TT,
    /// Whether iteration reports are kept.
    pub info: bool,
    pub stats: Stats,
    /// The reports of the last search's iterations, when `info` is set.
    pub reports: Vec<SearchReport>,
    /// The last depth the last search completed (0 for none).
    pub last_depth: u8,
    /// The root score of that depth.
    pub last_score: i32,
}

impl Engine {
    pub open spec fn wf(&self) -> bool {
        &&& self.tt.wf()
        &&& self.tt.values_within(OO as int)
        &&& self.stats.wf()
    }

    /// An engine with a table of `tt_size_mb` MiB.
    pub fn new(tt_size_mb: usize) -> (r: Engine)
        requires
            1 <= tt_size_mb <= 8192,
        ensures
            r.wf(),
            !r.info,
            crate::tt::entries_for(tt_size_mb as int) <= r.tt@.len() < 2 * crate::tt::entries_for(tt_size_mb as int),
            forall|i: int| 0 <= i < r.tt@.len() ==> #[trigger] r.tt@[i] == (0u64, TranspositionEntry::spec_empty()),
            forall|b: chess::Board| #[trigger] Self::root_sound(r.tt@, b),
    {
        let tt = TT::new_with_size_mb(tt_size_mb);
        let r = Engine { tt, info: false, stats: Stats::new(), reports: Vec::new(), last_depth: 0, last_score: 0 };
        proof {
            r.tt.lemma_wf();
            assert forall|b: chess::Board| #[trigger] Self::root_sound(r.tt@, b) by {
                crate::tt::lemma_slot_in_range(hash_of(b), r.tt@.len() as int);
            }
        }
        r
    }

    /// What a quiescence search of `b` with window `(alpha, beta)` at `ply`
    /// returns, given the captures `t` it tried, in order, each with its
    /// negated child score. An evaluation at or above `beta` returns `beta`.
    /// Without a legal move the result is the mate or stalemate score.
    /// Otherwise the stand-pat score (the evaluation raised to `alpha`) is
    /// taken, then each capture: a score reaching `beta` returns `beta`, and
    /// else the result is the largest of the stand-pat score and the scores,
    /// every capture having been tried (below ply 255, with no more than
    /// `MAX_MOVES` legal moves).
    pub open spec fn quiescence_ok(
        t: Seq<(Move, int)>,
        b: chess::Board,
        alpha: i32,
        beta: i32,
        ply: u8,
        r: i32,
    ) -> bool {
        let e = board_eval(b);
        let sp = stand_pat(e, alpha as int, beta as int);
        &&& -OO <= r <= OO
        &&& e >= beta ==> r == beta
        &&& legal_moves_of(b).len() == 0 && e < beta ==>
            r == (if checkers_of(b) != 0 { -OO + ply } else { 0 })
        &&& legal_moves_of(b).len() > 0 && e < beta ==> {
            &&& forall|i: int| 0 <= i < t.len() ==> legal_moves_of(b).contains((#[trigger] t[i]).0)
                && crate::ordering::is_target(b, true, t[i].0) && -OO <= t[i].1 <= OO
            &&& forall|i: int| 0 <= i < t.len() - 1 ==> (#[trigger] t[i]).1 < beta
            &&& r == beta ==> t.len() > 0 && t.last().1 >= beta
            &&& r < beta ==> r == max_score(sp, t)
                && (forall|i: int| 0 <= i < t.len() ==> (#[trigger] t[i]).1 < beta)
                && (ply < 255 && legal_moves_of(b).len() <= MAX_MOVES ==>
                    forall|j: int| 0 <= j < legal_moves_of(b).len()
                        && crate::ordering::is_target(b, true, #[trigger] legal_moves_of(b)[j])
                        ==> tried_has(t, legal_moves_of(b)[j]))
            &&& sp <= r <= beta
        }
    }

    /// Quiescence search: stand pat on the static evaluation, then try the
    /// captures, best first; cutoffs return `beta`. Also returns the
    /// captures tried with their scores.
    pub fn qsearch(&mut self, board: &chess::Board, alpha: i32, beta: i32, sinfo: &SearchInfo, ply: u8)
        -> (out: (i32, Ghost<Seq<(Move, int)>>))
        requires
            old(self).wf(),
            -OO <= alpha < beta <= OO,
        ensures
            final(self).wf(),
            final(self).tt@ == old(self).tt@,
            Self::quiescence_ok(out.1@, *board, alpha, beta, ply, out.0),
            legal_moves_of(*board).len() > 0 && !has_capture(*board) ==>
                out.0 == stand_pat(board_eval(*board), alpha as int, beta as int),
        decreases 255 - ply,
    {
        let mut alpha_now = alpha;
        self.stats.qnodes_searched = crate::stats::bump(self.stats.qnodes_searched);

        let standpat = eval(board);
        if standpat >= beta {
            return (beta, Ghost(Seq::empty()));
        }
        if standpat > alpha_now {
            alpha_now = standpat;
        }
        let mut movegen = MoveGenOrdered::new(board, sinfo, ply, None, true);
        proof {
            let ms = legal_moves_of(*board);
            if !has_capture(*board) {
                assert forall|i: int| 0 <= i < ms.len() implies !crate::ordering::is_target(*board, true, #[trigger] ms[i]) by {}
                lemma_collect_none(*board, sinfo.killers@, ply as int, None, true, ms, ms.len() as int);
            }
            lemma_collect_targets(*board, sinfo.killers@, ply as int, None, ms, ms.len() as int);
        }
        match movegen.status() {
            BoardStatus::Ongoing => {},
            BoardStatus::Checkmate => return (-OO + ply as i32, Ghost(Seq::empty())),
            BoardStatus::Stalemate => return (0, Ghost(Seq::empty())),
        }
        // Captures end after at most 30 plies in a game; this only bounds the
        // recursion on a malformed board.
        if ply == 255 {
            return (alpha_now, Ghost(Seq::empty()));
        }

        let n = movegen.len;
        let ghost init = movegen.items();
        let ghost mut tried: Seq<(Move, int)> = Seq::empty();
        let mut i: usize = 0;
        while i < n
            invariant
                self.wf(),
                self.tt@ == old(self).tt@,
                -OO <= alpha_now < beta <= OO,
                ply < 255,
                board_eval(*board) < beta,
                !has_capture(*board) ==> n == 0
                    && alpha_now == stand_pat(board_eval(*board), alpha as int, beta as int),
                legal_moves_of(*board).len() > 0,
                i <= n,
                movegen.items().len() == n - i,
                items_sound(movegen.items(), *board),
                init.len() == n,
                init == collect_spec(*board, sinfo.killers@, ply as int, None, true,
                    legal_moves_of(*board), legal_moves_of(*board).len() as int),
                tried.len() == i,
                alpha_now == max_score(stand_pat(board_eval(*board), alpha as int, beta as int), tried),
                stand_pat(board_eval(*board), alpha as int, beta as int) <= alpha_now,
                forall|j: int| 0 <= j < tried.len() ==> legal_moves_of(*board).contains((#[trigger] tried[j]).0)
                    && crate::ordering::is_target(*board, true, tried[j].0) && -OO <= tried[j].1 < beta,
                forall|j: int| 0 <= j < n ==> movegen.items().contains(#[trigger] init[j])
                    || tried_has(tried, init[j].0),
                forall|j: int| 0 <= j < movegen.items().len() ==>
                    crate::ordering::is_target(*board, true, (#[trigger] movegen.items()[j]).0),
            decreases n - i,
        {
            let ghost before = movegen.items();
            let mv = movegen.pick_next().unwrap();
            let ghost k = choose|k: int| is_first_max(before, k) && Some(mv) == Some(before[k].0)
                && movegen.items() == before.remove(k);
            proof {
                lemma_remove_sound(before, k, *board);
                assert forall|j: int| 0 <= j < movegen.items().len() implies
                    crate::ordering::is_target(*board, true, (#[trigger] movegen.items()[j]).0) by {
                    if j < k { assert(movegen.items()[j] == before[j]); }
                    else { assert(movegen.items()[j] == before[j + 1]); }
                }
                assert(crate::ordering::is_target(*board, true, before[k].0));
            }
            let new_board = make_move(board, mv);
            let (child, _) = self.qsearch(&new_board, -beta, -alpha_now, sinfo, ply + 1);
            let score = -child;
            let ghost t2 = tried.push((mv, score as int));
            proof {
                assert(t2.drop_last() =~= tried);
                assert forall|j: int| 0 <= j < n implies movegen.items().contains(#[trigger] init[j])
                    || tried_has(t2, init[j].0) by {
                    if before.contains(init[j]) {
                        if init[j] == before[k] {
                            assert(t2[tried.len() as int].0 == init[j].0);
                        } else {
                            lemma_remove_keeps(before, k, init[j]);
                        }
                    } else {
                        let q = choose|q: int| 0 <= q < tried.len() && tried[q].0 == init[j].0;
                        assert(t2[q] == tried[q]);
                    }
                }
            }
            if score >= beta {
                proof {
                    assert forall|j: int| 0 <= j < t2.len() implies legal_moves_of(*board).contains((#[trigger] t2[j]).0)
                        && crate::ordering::is_target(*board, true, t2[j].0) && -OO <= t2[j].1 <= OO by {
                        if j < tried.len() { assert(t2[j] == tried[j]); }
                    }
                    assert forall|j: int| 0 <= j < t2.len() - 1 implies (#[trigger] t2[j]).1 < beta by {
                        assert(t2[j] == tried[j]);
                    }
                }
                return (beta, Ghost(t2));
            }
            if score > alpha_now {
                alpha_now = score;
            }
            proof { tried = t2; }
            i += 1;
        }
        proof {
            let ms = legal_moves_of(*board);
            if ms.len() <= MAX_MOVES {
                assert forall|j: int| 0 <= j < ms.len() && crate::ordering::is_target(*board, true, #[trigger] ms[j])
                    implies tried_has(tried, ms[j]) by {
                    let q = choose|q: int| 0 <= q < init.len() && (#[trigger] init[q]).0 == ms[j];
                    assert(!movegen.items().contains(init[q]));
                }
            }
        }
        (alpha_now, Ghost(tried))
    }

    /// The stored entry of a node's key is a hit of at least the node's
    /// depth, and unless it is the entry that was already there, it holds a
    /// best move legal in the node's position.
    pub open spec fn node_entry_ok(
        old_tt: Seq<(u64, TranspositionEntry)>,
        new_tt: Seq<(u64, TranspositionEntry)>,
        b: chess::Board,
        depth: u8,
    ) -> bool {
        let key = hash_of(b);
        let e = get_spec(new_tt, key);
        &&& e.spec_is_valid(key)
        &&& e.depth >= depth
        &&& (e == get_spec(old_tt, key)
            || (e.best_move is Some && legal_moves_of(b).contains(e.best_move->0)))
    }

    /// A hit for the board's key, if the table holds one, has a best move
    /// legal on the board.
    pub open spec fn root_sound(tt: Seq<(u64, TranspositionEntry)>, b: chess::Board) -> bool {
        let e = get_spec(tt, hash_of(b));
        e.spec_is_valid(hash_of(b)) ==> e.best_move is Some && legal_moves_of(b).contains(e.best_move->0)
    }

    /// Whether the table holds a hit for the board's key of at least `depth`.
    pub open spec fn table_hit(tt: Seq<(u64, TranspositionEntry)>, b: chess::Board, depth: u8) -> bool {
        let e = get_spec(tt, hash_of(b));
        e.spec_is_valid(hash_of(b)) && e.depth >= depth
    }

    /// Whether a table hit ends the search of the node: an exact score, a
    /// lower bound at or above `beta`, or an upper bound at or below `alpha`.
    pub open spec fn hit_cuts(
        tt: Seq<(u64, TranspositionEntry)>,
        b: chess::Board,
        depth: u8,
        ply: u8,
        alpha: i32,
        beta: i32,
    ) -> bool {
        let e = get_spec(tt, hash_of(b));
        let v = probe_value(e.value as int, ply as int);
        &&& Self::table_hit(tt, b, depth)
        &&& (e.node_type == NodeType::Exact
            || (e.node_type == NodeType::LowerBound && v >= beta)
            || (e.node_type == NodeType::UpperBound && v <= alpha))
    }

    /// The entry stored for a searched node: its key, the result as value,
    /// the searched depth, a lower bound when the result reached `beta`, else
    /// exact when it raised `alpha` and an upper bound when not; and a best
    /// move legal in the position.
    pub open spec fn stored_result(
        tt: Seq<(u64, TranspositionEntry)>,
        b: chess::Board,
        searched: int,
        alpha: i32,
        beta: i32,
        r: i32,
    ) -> bool {
        let e = get_spec(tt, hash_of(b));
        &&& e.key == hash_of(b)
        &&& e.value == r
        &&& e.depth == searched
        &&& if r >= beta {
            e.node_type == NodeType::LowerBound
        } else {
            e.node_type == (if r > alpha { NodeType::Exact } else { NodeType::UpperBound })
        }
        &&& e.best_move is Some
        &&& legal_moves_of(b).contains(e.best_move->0)
    }

    /// The moves a searched node tried, each legal with its negated child
    /// score: a result at or above `beta` is the score of the last move tried,
    /// the first to reach `beta`; a result below `beta` is the largest of
    /// `alpha` and every score, after every legal move was tried (when there
    /// are no more than `MAX_MOVES` of them).
    pub open spec fn tried_ok(t: Seq<(Move, int)>, b: chess::Board, alpha: i32, beta: i32, r: i32) -> bool {
        &&& forall|i: int| 0 <= i < t.len() ==> legal_moves_of(b).contains((#[trigger] t[i]).0)
            && -OO <= t[i].1 <= OO
        &&& r >= beta ==> t.len() > 0 && r == t.last().1
            && forall|i: int| 0 <= i < t.len() - 1 ==> (#[trigger] t[i]).1 < beta
        &&& r < beta ==> r == max_score(alpha as int, t)
            && (forall|i: int| 0 <= i < t.len() ==> (#[trigger] t[i]).1 < beta)
            && (legal_moves_of(b).len() <= MAX_MOVES ==>
                forall|j: int| 0 <= j < legal_moves_of(b).len() ==> tried_has(t, #[trigger] legal_moves_of(b)[j]))
    }

    /// Negamax alpha-beta search of `board` to `depth` plies, `ply` plies
    /// from the root, with `history` the positions that led here. At the
    /// horizon it hands over to quiescence; a threefold repetition scores
    /// `-OO`; table hits of enough depth cut the search short; checks extend
    /// the depth by one while `ply < MAX_PLY / 2`. Beta cutoffs store a lower
    /// bound and return the score that failed high; otherwise the node stores
    /// an exact score or an upper bound and returns alpha. Also returns the
    /// moves tried with their scores (the captures, at the horizon).
    pub fn negamax(
        &mut self,
        board: &chess::Board,
        alpha: i32,
        beta: i32,
        depth: u8,
        ply: u8,
        sinfo: &mut SearchInfo,
        history: History,
    ) -> (out: (i32, Ghost<Seq<(Move, int)>>))
        requires
            old(self).wf(),
            old(sinfo).wf(),
            -OO <= alpha < beta <= OO,
            depth < 255,
        ensures
            final(self).wf(),
            final(sinfo).wf(),
            -OO <= out.0 <= OO,
            forall|q: int| 0 <= q < ply && q < old(sinfo).killers@.len() ==>
                #[trigger] final(sinfo).killers@[q] == old(sinfo).killers@[q],
            // at the horizon: quiescence, which touches neither table nor scratch
            horizon(*board, depth, ply) ==>
                final(self).tt@ == old(self).tt@ && *final(sinfo) == *old(sinfo)
                && Self::quiescence_ok(out.1@, *board, alpha, beta, ply, out.0),
            // a repetition
            !horizon(*board, depth, ply) && three_rep_spec(history@) ==>
                out.0 == -OO && final(self).tt@ == old(self).tt@,
            // a table cutoff
            !horizon(*board, depth, ply) && !three_rep_spec(history@)
                && Self::hit_cuts(old(self).tt@, *board, depth, ply, alpha, beta) ==>
                out.0 == probe_value(get_spec(old(self).tt@, hash_of(*board)).value as int, ply as int)
                && final(self).tt@ == old(self).tt@,
            // no legal move: checkmate or stalemate
            !horizon(*board, depth, ply) && !three_rep_spec(history@)
                && !Self::hit_cuts(old(self).tt@, *board, depth, ply, alpha, beta)
                && legal_moves_of(*board).len() == 0 ==>
                out.0 == (if checkers_of(*board) != 0 { -OO + ply } else { 0 })
                && final(self).tt@ == old(self).tt@,
            // a searched node stores its result
            !horizon(*board, depth, ply) && !three_rep_spec(history@)
                && !Self::hit_cuts(old(self).tt@, *board, depth, ply, alpha, beta)
                && legal_moves_of(*board).len() > 0 ==>
                Self::stored_result(final(self).tt@, *board, extended_depth(*board, depth, ply), alpha, beta, out.0),
            // a quiet move that fails high becomes the first killer of its ply
            !horizon(*board, depth, ply) && !three_rep_spec(history@)
                && !Self::hit_cuts(old(self).tt@, *board, depth, ply, alpha, beta)
                && legal_moves_of(*board).len() > 0 && out.0 >= beta ==> ({
                    let m = get_spec(final(self).tt@, hash_of(*board)).best_move->0;
                    piece_of(*board, m.to as int) is None ==>
                        final(sinfo).killers@[ply as int] == [Some(m), old(sinfo).killers@[ply as int][0]]
                }),
            // a searched node's result against the moves it tried, in order,
            // each with its negated child score
            !horizon(*board, depth, ply) && !three_rep_spec(history@)
                && !Self::hit_cuts(old(self).tt@, *board, depth, ply, alpha, beta)
                && legal_moves_of(*board).len() > 0 ==>
                Self::tried_ok(out.1@, *board, alpha, beta, out.0),
            depth >= 1 && ply <= MAX_PLY && !three_rep_spec(history@)
                && legal_moves_of(*board).len() > 0 ==>
                Self::node_entry_ok(old(self).tt@, final(self).tt@, *board, depth),
        decreases 255 - ply,
    {
        let mut alpha_now = alpha;
        let mut search_depth = depth;
        self.stats.nodes_searched = crate::stats::bump(self.stats.nodes_searched);

        let in_check = checkers(board) > 0;

        if (search_depth == 0 && !in_check) || ply > MAX_PLY {
            return self.qsearch(board, alpha_now, beta, sinfo, ply);
        }

        if history.is_three_rep() {
            return (-OO, Ghost(Seq::empty()));
        }

        let key = board_hash(board);
        let old_alpha = alpha_now;
        let entry = self.tt.get(key);
        proof { self.tt.lemma_wf(); lemma_get_within(self.tt@, key, OO as int); }
        let mut tt_move: Option<Move> = None;
        self.stats.tt_check = crate::stats::bump(self.stats.tt_check);
        if entry.is_valid(key) && entry.depth >= search_depth {
            self.stats.tt_hit = crate::stats::bump(self.stats.tt_hit);
            let entry_value = if is_mate_score(entry.value) {
                if entry.value > 0 {
                    entry.value - ply as i32
                } else {
                    entry.value + ply as i32
                }
            } else {
                entry.value
            };
            tt_move = entry.best_move;
            match entry.node_type {
                NodeType::Exact => return (entry_value, Ghost(Seq::empty())),
                NodeType::LowerBound => {
                    if entry_value >= beta {
                        return (entry_value, Ghost(Seq::empty()));
                    }
                },
                NodeType::UpperBound => {
                    if entry_value <= alpha_now {
                        return (entry_value, Ghost(Seq::empty()));
                    }
                },
                NodeType::Default => {},
            }
        }

        let mut movegen = MoveGenOrdered::new(board, sinfo, ply, tt_move, false);
        match movegen.status() {
            BoardStatus::Ongoing => {},
            BoardStatus::Checkmate => return (-OO + ply as i32, Ghost(Seq::empty())),
            BoardStatus::Stalemate => return (0, Ghost(Seq::empty())),
        }
        proof {
            lemma_collect_all(*board, sinfo.killers@, ply as int, tt_move, legal_moves_of(*board),
                legal_moves_of(*board).len() as int);
        }

        if in_check && ply < MAX_PLY / 2 {
            self.stats.check_extension = crate::stats::bump(self.stats.check_extension);
            search_depth += 1;
        }
        // A node in check past the extension limit may reach depth 0 here; its
        // children then search at depth 0 too.
        let child_depth: u8 = if search_depth > 0 { search_depth - 1 } else { 0 };

        let mut best_move: Option<Move> = None;
        // below every score, so that the first move tried is recorded
        let mut best_score: i32 = -OO - 1;
        let mut best_move_index: usize = 0;

        let n = movegen.len;
        let ghost init = movegen.items();
        let ghost mut tried: Seq<(Move, int)> = Seq::empty();
        let mut mv_index: usize = 0;
        while mv_index < n
            invariant
                self.wf(),
                sinfo.wf(),
                -OO <= old_alpha <= alpha_now < beta <= OO,
                old_alpha == alpha,
                old(sinfo).wf(),
                search_depth == extended_depth(*board, depth, ply),
                !horizon(*board, depth, ply),
                forall|q: int| 0 <= q <= ply && q < old(sinfo).killers@.len() ==>
                    #[trigger] sinfo.killers@[q] == old(sinfo).killers@[q],
                !three_rep_spec(history@),
                !Self::hit_cuts(old(self).tt@, *board, depth, ply, alpha, beta),
                -OO - 1 <= best_score <= alpha_now,
                init.len() == n,
                n == (if legal_moves_of(*board).len() < MAX_MOVES { legal_moves_of(*board).len() } else { MAX_MOVES as nat }),
                forall|i: int| 0 <= i < n ==> (#[trigger] init[i]).0 == legal_moves_of(*board)[i],
                tried.len() == mv_index,
                tried.len() > 0 ==> best_score >= -OO,
                best_move is Some <==> best_score >= -OO,
                alpha_now == max_score(alpha as int, tried),
                forall|i: int| 0 <= i < tried.len() ==> legal_moves_of(*board).contains((#[trigger] tried[i]).0)
                    && -OO <= tried[i].1 < beta,
                forall|j: int| 0 <= j < n ==> movegen.items().contains(#[trigger] init[j])
                    || tried_has(tried, init[j].0),
                child_depth < 255,
                search_depth >= depth,
                ply <= MAX_PLY,
                key == hash_of(*board),
                n <= MAX_MOVES,
                mv_index <= n,
                best_move_index < MAX_MOVES,
                movegen.items().len() == n - mv_index,
                items_sound(movegen.items(), *board),
                best_move is Some ==> legal_moves_of(*board).contains(best_move->0),
            decreases n - mv_index,
        {
            let ghost before = movegen.items();
            let mv = movegen.pick_next().unwrap();
            let ghost k = choose|k: int| is_first_max(before, k) && Some(mv) == Some(before[k].0)
                && movegen.items() == before.remove(k);
            proof {
                lemma_remove_sound(before, k, *board);
            }
            let capture = piece_on(board, mv.to).is_some();

            let new_board = make_move(board, mv);
            let new_history = history.push_hist_new(board_hash(&new_board));
            let (child, _) = self.negamax(&new_board, -beta, -alpha_now, child_depth, ply + 1, sinfo, new_history);
            let score = -child;
            proof {
                let t2 = tried.push((mv, score as int));
                assert(t2.drop_last() =~= tried);
                assert forall|j: int| 0 <= j < n implies movegen.items().contains(#[trigger] init[j])
                    || tried_has(t2, init[j].0) by {
                    if before.contains(init[j]) {
                        if init[j] == before[k] {
                            assert(t2[tried.len() as int].0 == init[j].0);
                        } else {
                            lemma_remove_keeps(before, k, init[j]);
                        }
                    } else {
                        let i = choose|i: int| 0 <= i < tried.len() && tried[i].0 == init[j].0;
                        assert(t2[i] == tried[i]);
                    }
                }
            }

            if score > best_score {
                best_score = score;
                best_move = Some(mv);
                best_move_index = mv_index;

                if score > alpha_now {
                    alpha_now = score;
                    if !capture {
                        let idx = mv.from as usize * 64 + mv.to as usize;
                        let h = sinfo.history[idx];
                        let d = search_depth as u32;
                        sinfo.history.set(idx, if h <= u32::MAX - d { h + d } else { u32::MAX });
                    }
                }
            }

            if score >= beta {
                let e = TranspositionEntry {
                    key,
                    value: score,
                    depth: search_depth,
                    node_type: NodeType::LowerBound,
                    best_move: Some(mv),
                };
                let ghost tt1 = self.tt@;
                proof { self.tt.lemma_wf(); lemma_set_within(self.tt@, e, OO as int); }
                self.tt.set(e);
                proof { crate::tt::lemma_set_get_round_trip(tt1, e, Seq::empty()); }
                self.stats.add_move_index(mv_index);
                if !capture {
                    let k = sinfo.killers[ply as usize];
                    let shifted = [Some(mv), k[0]];
                    sinfo.killers.set(ply as usize, shifted);
                }
                return (score, Ghost(tried.push((mv, score as int))));
            }
            proof {
                tried = tried.push((mv, score as int));
            }
            mv_index += 1;
        }

        self.stats.add_move_index(best_move_index);

        let e = TranspositionEntry {
            key,
            value: alpha_now,
            depth: search_depth,
            node_type: if alpha_now > old_alpha { NodeType::Exact } else { NodeType::UpperBound },
            best_move,
        };
        let ghost tt1 = self.tt@;
        proof { self.tt.lemma_wf(); lemma_set_within(self.tt@, e, OO as int); }
        self.tt.set(e);
        proof {
            crate::tt::lemma_set_get_round_trip(tt1, e, Seq::empty());
            assert forall|j: int| 0 <= j < legal_moves_of(*board).len() && legal_moves_of(*board).len() <= MAX_MOVES
                implies tried_has(tried, legal_moves_of(*board)[j]) by {
                assert(init[j].0 == legal_moves_of(*board)[j]);
                assert(movegen.items().len() == 0);
                assert(!movegen.items().contains(init[j]));
            }
        }
        (alpha_now, Ghost(tried))
    }

    /// Searches `board` by iterative deepening from depth 1 while the time
    /// manager allows another iteration. The last completed depth and its
    /// score are kept in `last_depth` and `last_score`. The move returned is
    /// the root entry's move after the last completed iteration, when it is
    /// legal. A mate score ends the search at once. With `info` set, each
    /// completed iteration leaves a report.
    pub fn start(&mut self, board: chess::Board, time: &TimeManager, history: History) -> (r: Option<Move>)
        requires
            old(self).wf(),
        ensures
            final(self).wf(),
            final(self).last_depth < MAX_PLY,
            // the move of the root's entry, after a completed iteration
            r == (if final(self).last_depth == 0 {
                None
            } else {
                legal_or_none(get_spec(final(self).tt@, hash_of(board)).best_move, board)
            }),
            // the last completed depth leaves a root hit of at least that depth
            final(self).last_depth >= 1 && legal_moves_of(board).len() > 0 && !three_rep_spec(history@) ==>
                Self::table_hit(final(self).tt@, board, final(self).last_depth),
            // each depth the time manager allowed was searched: the search
            // stops at a mate score, or where the next depth was refused
            final(self).last_depth + 1 < MAX_PLY ==>
                (final(self).last_depth >= 1 && is_mate_spec(final(self).last_score as int))
                || exists|t: int| t >= 0 && !#[trigger] time.soft_spec((final(self).last_depth + 1) as u8, t),
            // below the minimum depth the clock is not read, so depth 1 is searched
            (match time.min_depth { Some(m) => m >= 2, None => false }) ==> final(self).last_depth >= 1,
            // a move is owed after a completed iteration, unless the table held
            // an unsound entry for the root to begin with
            Self::root_sound(old(self).tt@, board) && legal_moves_of(board).len() > 0
                && !three_rep_spec(history@) && final(self).last_depth >= 1 ==> r is Some,
    {
        self.stats.reset();
        self.reports = Vec::new();
        self.last_depth = 0;
        self.last_score = 0;
        let start_of_search = now();
        let mut best_mv: Option<Move> = None;
        let mut sinfo = SearchInfo::new();
        let key = board_hash(&board);

        let mut depth: u8 = 1;
        while depth < MAX_PLY
            invariant
                self.wf(),
                sinfo.wf(),
                key == hash_of(board),
                1 <= depth <= MAX_PLY,
                self.last_depth == depth - 1,
                self.last_depth == 0 ==> best_mv is None,
                self.last_depth >= 1 ==> best_mv == legal_or_none(get_spec(self.tt@, key).best_move, board),
                self.last_depth >= 1 && legal_moves_of(board).len() > 0 && !three_rep_spec(history@) ==>
                    Self::table_hit(self.tt@, board, self.last_depth),
                Self::root_sound(old(self).tt@, board) && legal_moves_of(board).len() > 0
                    && !three_rep_spec(history@) ==> Self::root_sound(self.tt@, board),
            ensures
                self.last_depth + 1 < MAX_PLY ==>
                    exists|t: int| t >= 0 && !#[trigger] time.soft_spec((self.last_depth + 1) as u8, t),
                (match time.min_depth { Some(m) => m >= 2, None => false }) ==> self.last_depth >= 1,
            decreases MAX_PLY - depth,
        {
            let elapsed = elapsed_ms(&start_of_search);
            if !time.can_continue_soft(depth, elapsed) {
                proof {
                    assert(!time.soft_spec(depth, elapsed as int));
                    assert(((self.last_depth + 1) as u8) == depth);
                    assert(elapsed as int >= 0 && !time.soft_spec(((self.last_depth + 1) as u8), elapsed as int));
                    if (match time.min_depth { Some(m) => m >= 2, None => false }) {
                        assert(depth > 1);
                    }
                }
                break;
            }

            self.stats.reset();
            let ghost old_tt = self.tt@;
            let (best_score, _) = self.negamax(&board, -OO, OO, depth, 0, &mut sinfo, history);
            self.last_depth = depth;
            self.last_score = best_score;

            proof {
                if legal_moves_of(board).len() > 0 && !three_rep_spec(history@) {
                    assert(Self::node_entry_ok(old_tt, self.tt@, board, depth));
                }
            }
            best_mv = match self.tt.get(key).best_move {
                Some(m) => if is_legal(&board, m) { Some(m) } else { None },
                None => None,
            };

            if self.info {
                let pv = printpv(&self.tt, &board, best_mv);
                let report = SearchReport {
                    depth,
                    score: best_score,
                    nodes: self.stats.nodes_searched,
                    qnodes: self.stats.qnodes_searched,
                    time_ms: elapsed_ms(&start_of_search),
                    check_extensions: self.stats.check_extension,
                    tt_checks: self.stats.tt_check,
                    tt_hits: self.stats.tt_hit,
                    pv,
                };
                self.reports.push(report);
            }

            if is_mate_score(best_score) {
                return best_mv;
            }
            depth += 1;
        }
        best_mv
    }
}

impl Default for Engine {
    /// An engine with a 128 MiB table.
    fn default() -> (r: Engine)
        ensures
            r.wf(),
    {
        Engine::new(128)
    }
}

} // verus!
