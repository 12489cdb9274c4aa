//! Move ordering: every legal move gets a non-negative score (hash move,
//! MVV-LVA for captures, killers), and the producer hands out the best
//! remaining move on each call.
use vstd::prelude::*;
use crate::board::{Move, PieceKind, piece_on, color_on, side_is_white, checkers, legal_moves,
    piece_of, white_on, white_to_move, checkers_of, legal_moves_of};
use crate::engine::MAX_PLY;

verus! {

/// Bound on the number of moves a producer holds.
pub const MAX_MOVES: usize = 128;

/// Score of the move that the transposition table suggests.
pub const HASH_VALUE: u32 = 50;
/// Score of the first killer at a ply; the second gets ten less.
pub const KILLER_VALUE: u32 = 20;

/// Capture scores by victim (rows) and attacker (columns); index 0 is an
/// empty square, then pawn to king.
pub const MVV_LVA: [[u8; 7]; 7] = [
    [0, 0, 0, 0, 0, 0, 0],
    [0, 15, 14, 13, 12, 11, 10],
    [0, 25, 24, 23, 22, 21, 20],
    [0, 35, 34, 33, 32, 31, 30],
    [0, 45, 44, 43, 42, 41, 40],
    [0, 55, 54, 53, 52, 51, 50],
    [0, 0, 0, 0, 0, 0, 0],
];

/// The outcome of a position as its legal-move count shows it.
#[derive(Clone, Copy, Debug, PartialEq, Eq, Structural)]
pub enum BoardStatus {
    Ongoing,
    Checkmate,
    Stalemate,
}

/// Per-search scratch: two killer moves per ply and a from/to history table.
pub struct SearchInfo {
    /// `killers[ply]` holds the first and second killer of that ply.
    pub killers: Vec<[Option<Move>; 2]>,
    /// `history[from * 64 + to]` accumulates depth on quiet improvements.
    pub history: Vec<u32>,
}

impl SearchInfo {
    pub open spec fn wf(&self) -> bool {
        self.killers@.len() == MAX_PLY as int + 1 && self.history@.len() == 64 * 64
    }

    /// Empty killers and a zeroed history table.
    pub fn new() -> (r: SearchInfo)
        ensures
            r.wf(),
            forall|i: int| 0 <= i < r.killers@.len() ==> #[trigger] r.killers@[i] == [None::<Move>, None],
            forall|i: int| 0 <= i < r.history@.len() ==> #[trigger] r.history@[i] == 0,
    {
        let mut killers: Vec<[Option<Move>; 2]> = Vec::new();
        let mut i: usize = 0;
        while i < MAX_PLY as usize + 1
            invariant
                i <= MAX_PLY as usize + 1,
                killers@.len() == i,
                forall|k: int| 0 <= k < i ==> #[trigger] killers@[k] == [None::<Move>, None],
            decreases MAX_PLY as usize + 1 - i,
        {
            killers.push([None, None]);
            i += 1;
        }
        let mut history: Vec<u32> = Vec::new();
        let mut j: usize = 0;
        while j < 64 * 64
            invariant
                j <= 64 * 64,
                history@.len() == j,
                forall|k: int| 0 <= k < j ==> #[trigger] history@[k] == 0,
            decreases 64 * 64 - j,
        {
            history.push(0);
            j += 1;
        }
        SearchInfo { killers, history }
    }
}

impl Default for SearchInfo {
    fn default() -> (r: SearchInfo)
        ensures
            r.wf(),
    {
        SearchInfo::new()
    }
}

/// 0 for an empty square, else the kind's index plus one.
pub open spec fn piece_to_index_spec(a: Option<PieceKind>) -> int {
    match a {
        Some(k) => k.spec_index() as int + 1,
        None => 0,
    }
}

fn piece_to_index(a: Option<PieceKind>) -> (r: usize)
    ensures
        r == piece_to_index_spec(a),
        r < 7,
{
    match a {
        Some(k) => k.index() + 1,
        None => 0,
    }
}

/// The ordering score of `mv` on board `b`.
pub open spec fn score_spec(
    mv: Move,
    b: chess::Board,
    killers: Seq<[Option<Move>; 2]>,
    ply: int,
    hash: Option<Move>,
) -> int {
    let mvv_lva = MVV_LVA[piece_to_index_spec(piece_of(b, mv.to as int))][piece_to_index_spec(piece_of(b, mv.from as int))] as int;
    if hash == Some(mv) {
        HASH_VALUE as int
    } else if mvv_lva > 0 {
        mvv_lva
    } else if 0 <= ply < killers.len() && killers[ply][0] == Some(mv) {
        KILLER_VALUE as int
    } else if 0 <= ply < killers.len() && killers[ply][1] == Some(mv) {
        KILLER_VALUE - 10
    } else {
        mvv_lva
    }
}

fn same_move(a: Option<Move>, m: Move) -> (r: bool)
    ensures
        r == (a == Some(m)),
{
    match a {
        Some(x) => x == m,
        None => false,
    }
}

/// Scores a move: the hash move first, then captures by MVV-LVA, then the
/// killers of this ply; quiet moves score 0.
pub fn score_move(mv: Move, b: &chess::Board, sinfo: &SearchInfo, ply: u8, hash: Option<Move>) -> (r: u32)
    requires
        mv.wf(),
    ensures
        r == score_spec(mv, *b, sinfo.killers@, ply as int, hash),
        r <= 55,
{
    if same_move(hash, mv) {
        return HASH_VALUE;
    }
    let attacker = piece_to_index(piece_on(b, mv.from));
    let victim = piece_to_index(piece_on(b, mv.to));
    let mvv_lva = MVV_LVA[victim][attacker] as u32;
    if mvv_lva > 0 {
        return mvv_lva;
    }
    if (ply as usize) < sinfo.killers.len() {
        let k = sinfo.killers[ply as usize];
        if same_move(k[0], mv) {
            return KILLER_VALUE;
        }
        if same_move(k[1], mv) {
            return KILLER_VALUE - 10;
        }
    }
    mvv_lva
}

/// The `arrayvec` crate's fixed-capacity vector.
#[verifier::external_type_specification]
#[verifier::external_body]
#[verifier::reject_recursive_types(T)]
pub struct ExArrayVec<T, const CAP: usize>(arrayvec::ArrayVec<T, CAP>);

/// The elements of an `arrayvec::ArrayVec` of scored moves, in order.
pub uninterp spec fn scored_moves(v: arrayvec::ArrayVec<(Move, i32), MAX_MOVES>) -> Seq<(Move, i32)>;

/// Relies on `arrayvec::ArrayVec::new`: an empty vector.
#[verifier::external_body]
fn moves_new() -> (r: arrayvec::ArrayVec<(Move, i32), MAX_MOVES>)
    ensures
        scored_moves(r) == Seq::<(Move, i32)>::empty(),
{
    arrayvec::ArrayVec::new()
}

/// Relies on `arrayvec::ArrayVec::push`, which panics when the vector is full.
#[verifier::external_body]
fn moves_push(v: &mut arrayvec::ArrayVec<(Move, i32), MAX_MOVES>, e: (Move, i32))
    requires
        scored_moves(*old(v)).len() < MAX_MOVES,
    ensures
        scored_moves(*final(v)) == scored_moves(*old(v)).push(e),
{
    v.push(e)
}

/// Relies on `arrayvec::ArrayVec::len`.
#[verifier::external_body]
fn moves_len(v: &arrayvec::ArrayVec<(Move, i32), MAX_MOVES>) -> (r: usize)
    ensures
        r == scored_moves(*v).len(),
{
    v.len()
}

/// Relies on indexing an `arrayvec::ArrayVec` (through its slice).
#[verifier::external_body]
fn moves_get(v: &arrayvec::ArrayVec<(Move, i32), MAX_MOVES>, i: usize) -> (r: (Move, i32))
    requires
        i < scored_moves(*v).len(),
    ensures
        r == scored_moves(*v)[i as int],
{
    v[i]
}

/// Relies on `arrayvec::ArrayVec::remove`: the element at `i` is taken out
/// and the later ones shift down; it panics when `i` is out of bounds.
#[verifier::external_body]
fn moves_remove(v: &mut arrayvec::ArrayVec<(Move, i32), MAX_MOVES>, i: usize) -> (r: (Move, i32))
    requires
        i < scored_moves(*old(v)).len(),
    ensures
        r == scored_moves(*old(v))[i as int],
        scored_moves(*final(v)) == scored_moves(*old(v)).remove(i as int),
{
    v.remove(i)
}

/// Whether a move passes the producer's mask: every move, or with
/// `caponly` only moves onto a square of the side not to move.
pub open spec fn is_target(b: chess::Board, caponly: bool, m: Move) -> bool {
    !caponly || white_on(b, m.to as int) == Some(!white_to_move(b))
}

/// The scored moves kept from the first `n` generated moves `ms`: those
/// that pass the mask, while fewer than `MAX_MOVES` are kept.
pub open spec fn collect_spec(
    b: chess::Board,
    killers: Seq<[Option<Move>; 2]>,
    ply: int,
    tt_move: Option<Move>,
    caponly: bool,
    ms: Seq<Move>,
    n: int,
) -> Seq<(Move, i32)>
    decreases n,
{
    if n <= 0 {
        Seq::empty()
    } else {
        let prev = collect_spec(b, killers, ply, tt_move, caponly, ms, n - 1);
        let m = ms[n - 1];
        if is_target(b, caponly, m) && prev.len() < MAX_MOVES {
            prev.push((m, score_spec(m, b, killers, ply, tt_move) as i32))
        } else {
            prev
        }
    }
}

/// Whether some legal move of `b` lands on a square of the side not to move.
pub open spec fn has_capture(b: chess::Board) -> bool {
    exists|i: int| 0 <= i < legal_moves_of(b).len() && is_target(b, true, #[trigger] legal_moves_of(b)[i])
}

/// With no move passing the mask, nothing is kept.
pub proof fn lemma_collect_none(
    b: chess::Board,
    killers: Seq<[Option<Move>; 2]>,
    ply: int,
    tt_move: Option<Move>,
    caponly: bool,
    ms: Seq<Move>,
    n: int,
)
    requires
        0 <= n <= ms.len(),
        forall|i: int| 0 <= i < n ==> !is_target(b, caponly, #[trigger] ms[i]),
    ensures
        collect_spec(b, killers, ply, tt_move, caponly, ms, n).len() == 0,
    decreases n,
{
    if n > 0 {
        lemma_collect_none(b, killers, ply, tt_move, caponly, ms, n - 1);
    }
}

/// Without the capture mask the first `MAX_MOVES` generated moves are all
/// kept, in order.
pub proof fn lemma_collect_all(
    b: chess::Board,
    killers: Seq<[Option<Move>; 2]>,
    ply: int,
    tt_move: Option<Move>,
    ms: Seq<Move>,
    n: int,
)
    requires
        0 <= n <= ms.len(),
    ensures
        collect_spec(b, killers, ply, tt_move, false, ms, n).len()
            == (if n < MAX_MOVES { n } else { MAX_MOVES as int }),
        forall|i: int| 0 <= i < collect_spec(b, killers, ply, tt_move, false, ms, n).len() ==>
            (#[trigger] collect_spec(b, killers, ply, tt_move, false, ms, n)[i]).0 == ms[i],
    decreases n,
{
    if n > 0 {
        lemma_collect_all(b, killers, ply, tt_move, ms, n - 1);
    }
}

/// With the capture mask every kept move is a capture, and with no more
/// than `MAX_MOVES` generated moves every capture is kept.
pub proof fn lemma_collect_targets(
    b: chess::Board,
    killers: Seq<[Option<Move>; 2]>,
    ply: int,
    tt_move: Option<Move>,
    ms: Seq<Move>,
    n: int,
)
    requires
        0 <= n <= ms.len(),
    ensures
        collect_spec(b, killers, ply, tt_move, true, ms, n).len() <= n,
        forall|j: int| 0 <= j < collect_spec(b, killers, ply, tt_move, true, ms, n).len() ==>
            is_target(b, true, (#[trigger] collect_spec(b, killers, ply, tt_move, true, ms, n)[j]).0),
        ms.len() <= MAX_MOVES ==> forall|i: int| 0 <= i < n && is_target(b, true, #[trigger] ms[i]) ==>
            exists|j: int| 0 <= j < collect_spec(b, killers, ply, tt_move, true, ms, n).len()
                && (#[trigger] collect_spec(b, killers, ply, tt_move, true, ms, n)[j]).0 == ms[i],
    decreases n,
{
    if n > 0 {
        lemma_collect_targets(b, killers, ply, tt_move, ms, n - 1);
        let prev = collect_spec(b, killers, ply, tt_move, true, ms, n - 1);
        let cur = collect_spec(b, killers, ply, tt_move, true, ms, n);
        if ms.len() <= MAX_MOVES {
            assert forall|i: int| 0 <= i < n && is_target(b, true, #[trigger] ms[i]) implies
                exists|j: int| 0 <= j < cur.len() && (#[trigger] cur[j]).0 == ms[i] by {
                if i < n - 1 {
                    let j = choose|j: int| 0 <= j < prev.len() && (#[trigger] prev[j]).0 == ms[i];
                    assert(cur[j] == prev[j]);
                } else {
                    assert(cur[prev.len() as int].0 == ms[i]);
                }
            }
        }
    }
}

/// Stalemate or checkmate when there is no legal move, by whether the side
/// to move is in check; else ongoing.
pub open spec fn status_spec(legal_count: int, checkers: u64) -> BoardStatus {
    if legal_count == 0 {
        if checkers == 0 { BoardStatus::Stalemate } else { BoardStatus::Checkmate }
    } else {
        BoardStatus::Ongoing
    }
}

/// Every scored move is a legal move of `b` with a score in `0..=55`.
pub open spec fn items_sound(items: Seq<(Move, i32)>, b: chess::Board) -> bool {
    forall|i: int| 0 <= i < items.len() ==>
        legal_moves_of(b).contains((#[trigger] items[i]).0) && items[i].0.wf() && 0 <= items[i].1 <= 55
}

/// Taking one scored move out leaves the rest sound; the move taken is legal.
pub proof fn lemma_remove_sound(s: Seq<(Move, i32)>, k: int, b: chess::Board)
    requires
        items_sound(s, b),
        0 <= k < s.len(),
    ensures
        items_sound(s.remove(k), b),
        legal_moves_of(b).contains(s[k].0),
        s[k].0.wf(),
{
    assert forall|j: int| 0 <= j < s.remove(k).len() implies
        legal_moves_of(b).contains((#[trigger] s.remove(k)[j]).0) && s.remove(k)[j].0.wf()
            && 0 <= s.remove(k)[j].1 <= 55 by {
        if j < k {
            assert(s.remove(k)[j] == s[j]);
        } else {
            assert(s.remove(k)[j] == s[j + 1]);
        }
    }
}

/// Index `i` holds the first of the highest scores in `s`.
pub open spec fn is_first_max(s: Seq<(Move, i32)>, i: int) -> bool {
    &&& 0 <= i < s.len()
    &&& forall|j: int| 0 <= j < s.len() ==> (#[trigger] s[j]).1 <= s[i].1
    &&& forall|j: int| 0 <= j < i ==> (#[trigger] s[j]).1 < s[i].1
}

/// The legal moves of a position with their scores, handed out best first.
pub struct MoveGenOrdered {
    /// The scored moves not handed out yet, in generation order.
    pub moves: arrayvec::ArrayVec<(Move, i32), MAX_MOVES>,
    /// The number of moves kept when the producer was built.
    pub len: usize,
    /// The number of legal moves, mask aside.
    pub real_len: usize,
    /// The checkers bitboard of the position.
    pub board_checkers: u64,
}

impl MoveGenOrdered {
    /// The scored moves not handed out yet, in generation order.
    pub open spec fn items(&self) -> Seq<(Move, i32)> {
        scored_moves(self.moves)
    }

    /// The number of legal moves, mask aside.
    pub open spec fn legal_count(&self) -> int {
        self.real_len as int
    }

    pub open spec fn checkers_spec(&self) -> u64 {
        self.board_checkers
    }

    /// Scores the legal moves of `board` that pass the mask (with `caponly`,
    /// captures of the side not to move only), keeping at most `MAX_MOVES`.
    pub fn new(
        board: &chess::Board,
        sinfo: &SearchInfo,
        ply: u8,
        tt_move: Option<Move>,
        caponly: bool,
    ) -> (r: MoveGenOrdered)
        ensures
            r.items() == collect_spec(*board, sinfo.killers@, ply as int, tt_move, caponly,
                legal_moves_of(*board), legal_moves_of(*board).len() as int),
            items_sound(r.items(), *board),
            r.len == r.items().len(),
            r.len <= MAX_MOVES,
            r.legal_count() == legal_moves_of(*board).len(),
            r.checkers_spec() == checkers_of(*board),
    {
        let mut moves = moves_new();
        let movegen = legal_moves(board);
        let them_white = !side_is_white(board);
        let mut real_len: usize = 0;
        let ghost ms = legal_moves_of(*board);
        while real_len < movegen.len()
            invariant
                movegen@ == ms,
                ms == legal_moves_of(*board),
                forall|i: int| 0 <= i < ms.len() ==> (#[trigger] ms[i]).wf(),
                them_white == !white_to_move(*board),
                real_len <= movegen@.len(),
                scored_moves(moves) == collect_spec(*board, sinfo.killers@, ply as int, tt_move,
                    caponly, ms, real_len as int),
                items_sound(scored_moves(moves), *board),
                scored_moves(moves).len() <= MAX_MOVES,
            decreases movegen@.len() - real_len,
        {
            let mv = movegen[real_len];
            let target = !caponly || match color_on(board, mv.to) {
                Some(w) => w == them_white,
                None => false,
            };
            assert(ms[real_len as int] == mv);
            assert(ms.contains(mv));
            if target && moves_len(&moves) < MAX_MOVES {
                let score = score_move(mv, board, sinfo, ply, tt_move);
                moves_push(&mut moves, (mv, score as i32));
            }
            real_len += 1;
        }
        let len = moves_len(&moves);
        MoveGenOrdered { moves, len, real_len, board_checkers: checkers(board) }
    }

    /// The position's status from the unmasked legal-move count.
    pub fn status(&self) -> (r: BoardStatus)
        ensures
            r == status_spec(self.legal_count(), self.checkers_spec()),
    {
        if self.real_len == 0 {
            if self.board_checkers == 0 {
                BoardStatus::Stalemate
            } else {
                BoardStatus::Checkmate
            }
        } else {
            BoardStatus::Ongoing
        }
    }

    /// Takes out and returns the first of the highest-scored moves left.
    pub fn pick_next(&mut self) -> (r: Option<Move>)
        requires
            old(self).items().len() > 0,
            forall|i: int| 0 <= i < old(self).items().len() ==> 0 <= (#[trigger] old(self).items()[i]).1,
        ensures
            exists|i: int| is_first_max(old(self).items(), i) && r == Some(old(self).items()[i].0)
                && final(self).items() == old(self).items().remove(i),
            final(self).len == old(self).len,
            final(self).legal_count() == old(self).legal_count(),
            final(self).checkers_spec() == old(self).checkers_spec(),
    {
        let ghost s = scored_moves(self.moves);
        let mut best_mv: Option<Move> = None;
        let mut best_score: i32 = -1;
        let mut best_index: usize = 0;
        let n = moves_len(&self.moves);
        let mut mv_i: usize = 0;
        while mv_i < n
            invariant
                n == s.len(),
                s == scored_moves(self.moves),
                forall|i: int| 0 <= i < s.len() ==> 0 <= (#[trigger] s[i]).1,
                mv_i <= n,
                mv_i == 0 ==> best_score == -1 && best_index == 0,
                mv_i > 0 ==> best_index < mv_i && best_score == s[best_index as int].1
                    && best_mv == Some(s[best_index as int].0),
                forall|j: int| 0 <= j < mv_i ==> (#[trigger] s[j]).1 <= best_score,
                forall|j: int| 0 <= j < best_index ==> (#[trigger] s[j]).1 < best_score,
            decreases n - mv_i,
        {
            let mv = moves_get(&self.moves, mv_i);
            if mv.1 > best_score {
                best_mv = Some(mv.0);
                best_score = mv.1;
                best_index = mv_i;
            }
            mv_i += 1;
        }
        moves_remove(&mut self.moves, best_index);
        assert(is_first_max(s, best_index as int));
        best_mv
    }
}

} // verus!
