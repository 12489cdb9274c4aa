//! Tapered piece-square evaluation.
//!
//! Each piece adds its midgame and endgame material and square values (for
//! black the square is mirrored vertically and the value subtracted). Pawns
//! add a passed-pawn bonus by rank and an isolated-pawn penalty. The side to
//! move gets a midgame tempo bonus, and the two accumulators are blended by a
//! game phase summed from the pieces and capped at 24.
use vstd::prelude::*;
use crate::board::{PieceKind, piece_on, color_on, side_is_white, piece_of, white_on, white_to_move};

verus! {

/// A piece with its colour.
#[derive(Clone, Copy, Debug, PartialEq, Eq, Structural)]
pub struct ColoredPiece {
    pub kind: PieceKind,
    pub white: bool,
}

/// Phase weight of each piece kind.
pub const PIECE_PHASE_VALUES: [i32; 6] = [0, 1, 1, 2, 4, 0];
/// Passed-pawn bonus by rank, counted from the pawn's own side.
pub const PASSED_PAWN_BONUS: [i32; 8] = [0, 0, 10, 30, 45, 70, 120, 200];
/// Midgame penalty for an isolated pawn (half of it applies in the endgame).
pub const ISOLATED_PAWN_PENALTY: i32 = -20;
/// Midgame bonus for the side to move.
pub const TEMPO_BONUS: i32 = 10;
/// The phase of a full set of pieces.
pub const MAX_PHASE: i32 = 24;

pub const MG_VALUE: [i32; 6] = [82, 337, 365, 477, 1025, 0];
pub const EG_VALUE: [i32; 6] = [94, 281, 297, 512, 936, 0];

pub const MG_PAWN: [i32; 64] = [
    0, 0, 0, 0, 0, 0, 0, 0,
    -35, -1, -20, -23, -15, 24, 38, -22,
    -26, -4, -4, -10, 3, 3, 33, -12,
    -27, -2, -5, 12, 17, 6, 10, -25,
    -14, 13, 6, 21, 23, 12, 17, -23,
    -6, 7, 26, 31, 65, 56, 25, -20,
    98, 134, 61, 95, 68, 126, 34, -11,
    0, 0, 0, 0, 0, 0, 0, 0,
];

pub const EG_PAWN: [i32; 64] = [
    0, 0, 0, 0, 0, 0, 0, 0,
    13, 8, 8, 10, 13, 0, 2, -7,
    4, 7, -6, 1, 0, -5, -1, -8,
    13, 9, -3, -7, -7, -8, 3, -1,
    32, 24, 13, 5, -2, 4, 17, 17,
    94, 100, 85, 67, 56, 53, 82, 84,
    178, 173, 158, 134, 147, 132, 165, 187,
    0, 0, 0, 0, 0, 0, 0, 0,
];

pub const MG_KNIGHT: [i32; 64] = [
    -105, -21, -58, -33, -17, -28, -19, -23,
    -29, -53, -12, -3, -1, 18, -14, -19,
    -23, -9, 12, 10, 19, 17, 25, -16,
    -13, 4, 16, 13, 28, 19, 21, -8,
    -9, 17, 19, 53, 37, 69, 18, 22,
    -47, 60, 37, 65, 84, 129, 73, 44,
    -73, -41, 72, 36, 23, 62, 7, -17,
    -167, -89, -34, -49, 61, -97, -15, -107,
];

pub const EG_KNIGHT: [i32; 64] = [
    -29, -51, -23, -15, -22, -18, -50, -64,
    -42, -20, -10, -5, -2, -20, -23, -44,
    -23, -3, -1, 15, 10, -3, -20, -22,
    -18, -6, 16, 25, 16, 17, 4, -18,
    -17, 3, 22, 22, 22, 11, 8, -18,
    -24, -20, 10, 9, -1, -9, -19, -41,
    -25, -8, -25, -2, -9, -25, -24, -52,
    -58, -38, -13, -28, -31, -27, -63, -99,
];

pub const MG_BISHOP: [i32; 64] = [
    -33, -3, -14, -21, -13, -12, -39, -21,
    4, 15, 16, 0, 7, 21, 33, 1,
    0, 15, 15, 15, 14, 27, 18, 10,
    -6, 13, 13, 26, 34, 12, 10, 4,
    -4, 5, 19, 50, 37, 37, 7, -2,
    -16, 37, 43, 40, 35, 50, 37, -2,
    -26, 16, -18, -13, 30, 59, 18, -47,
    -29, 4, -82, -37, -25, -42, 7, -8,
];

pub const EG_BISHOP: [i32; 64] = [
    -23, -9, -23, -5, -9, -16, -5, -17,
    -14, -18, -7, -1, 4, -9, -15, -27,
    -12, -3, 8, 10, 13, 3, -7, -15,
    -6, 3, 13, 19, 7, 10, -3, -9,
    -3, 9, 12, 9, 14, 10, 3, 2,
    2, -8, 0, -1, -2, 6, 0, 4,
    -8, -4, 7, -12, -3, -13, -4, -14,
    -14, -21, -11, -8, -7, -9, -17, -24,
];

pub const MG_ROOK: [i32; 64] = [
    -19, -13, 1, 17, 16, 7, -37, -26,
    -44, -16, -20, -9, -1, 11, -6, -71,
    -45, -25, -16, -17, 3, 0, -5, -33,
    -36, -26, -12, -1, 9, -7, 6, -23,
    -24, -11, 7, 26, 24, 35, -8, -20,
    -5, 19, 26, 36, 17, 45, 61, 16,
    27, 32, 58, 62, 80, 67, 26, 44,
    32, 42, 32, 51, 63, 9, 31, 43,
];

pub const EG_ROOK: [i32; 64] = [
    -9, 2, 3, -1, -5, -13, 4, -20,
    -6, -6, 0, 2, -9, -9, -11, -3,
    -4, 0, -5, -1, -7, -12, -8, -16,
    3, 5, 8, 4, -5, -6, -8, -11,
    4, 3, 13, 1, 2, 1, -1, 2,
    7, 7, 7, 5, 4, -3, -5, -3,
    11, 13, 13, 11, -3, 3, 8, 3,
    13, 10, 18, 15, 12, 12, 8, 5,
];

pub const MG_QUEEN: [i32; 64] = [
    -1, -18, -9, 10, -15, -25, -31, -50,
    -35, -8, 11, 2, 8, 15, -3, 1,
    -14, 2, -11, -2, -5, 2, 14, 5,
    -9, -26, -9, -10, -2, -4, 3, -3,
    -27, -27, -16, -16, -1, 17, -2, 1,
    -13, -17, 7, 8, 29, 56, 47, 57,
    -24, -39, -5, 1, -16, 57, 28, 54,
    -28, 0, 29, 12, 59, 44, 43, 45,
];

pub const EG_QUEEN: [i32; 64] = [
    -33, -28, -22, -43, -5, -32, -20, -41,
    -22, -23, -30, -16, -16, -23, -36, -32,
    -16, -27, 15, 6, 9, 17, 10, 5,
    -18, 28, 19, 47, 31, 34, 39, 23,
    3, 22, 24, 45, 57, 40, 57, 36,
    -20, 6, 9, 49, 47, 35, 19, 9,
    -17, 20, 32, 41, 58, 25, 30, 0,
    -9, 22, 22, 27, 27, 19, 10, 20,
];

pub const MG_KING: [i32; 64] = [
    -15, 36, 12, -54, 8, -28, 24, 14,
    1, 7, -8, -64, -43, -16, 9, 8,
    -14, -14, -22, -46, -44, -30, -15, -27,
    -49, -1, -27, -39, -46, -44, -33, -51,
    -17, -20, -12, -27, -30, -25, -14, -36,
    -9, 24, 2, -16, -20, 6, 22, -22,
    29, -1, -20, -7, -8, -4, -38, -29,
    -65, 23, 16, -15, -56, -34, 2, 13,
];

pub const EG_KING: [i32; 64] = [
    -53, -34, -21, -11, -28, -14, -24, -43,
    -27, -11, 4, 13, 14, 4, -5, -17,
    -19, -3, 11, 21, 23, 16, 7, -9,
    -18, -4, 21, 24, 27, 23, 9, -11,
    -8, 22, 24, 27, 26, 33, 26, 3,
    10, 17, 23, 15, 20, 45, 44, 13,
    -12, 17, 14, 17, 17, 38, 23, 11,
    -74, -35, -18, -18, -11, 15, 4, -17,
];

pub open spec fn file_of(sq: int) -> int {
    sq % 8
}

pub open spec fn rank_of(sq: int) -> int {
    sq / 8
}

/// The square seen from white's side: black's squares are mirrored
/// vertically, which for 0..64 is the index XOR 56.
pub open spec fn mirror(sq: int) -> int {
    (7 - rank_of(sq)) * 8 + file_of(sq)
}

/// Square value of a kind on a square (white's view), midgame.
pub open spec fn pst_mg(k: PieceKind, sq: int) -> int {
    match k {
        PieceKind::Pawn => MG_PAWN[sq] as int,
        PieceKind::Knight => MG_KNIGHT[sq] as int,
        PieceKind::Bishop => MG_BISHOP[sq] as int,
        PieceKind::Rook => MG_ROOK[sq] as int,
        PieceKind::Queen => MG_QUEEN[sq] as int,
        PieceKind::King => MG_KING[sq] as int,
    }
}

/// Square value of a kind on a square (white's view), endgame.
pub open spec fn pst_eg(k: PieceKind, sq: int) -> int {
    match k {
        PieceKind::Pawn => EG_PAWN[sq] as int,
        PieceKind::Knight => EG_KNIGHT[sq] as int,
        PieceKind::Bishop => EG_BISHOP[sq] as int,
        PieceKind::Rook => EG_ROOK[sq] as int,
        PieceKind::Queen => EG_QUEEN[sq] as int,
        PieceKind::King => EG_KING[sq] as int,
    }
}

/// Whether square `j` lies ahead of square `i` for a pawn of the given colour.
pub open spec fn ahead(white: bool, i: int, j: int) -> bool {
    if white { rank_of(j) > rank_of(i) } else { rank_of(j) < rank_of(i) }
}

pub open spec fn file_dist(i: int, j: int) -> int {
    if file_of(i) >= file_of(j) { file_of(i) - file_of(j) } else { file_of(j) - file_of(i) }
}

/// A pawn of colour `white` on `i` is passed when no enemy piece stands
/// ahead of it on its own or a neighbouring file, and no friendly piece stands
/// ahead of it on its own file.
pub open spec fn passed(s: Seq<Option<ColoredPiece>>, i: int, white: bool) -> bool {
    forall|j: int| 0 <= j < 64 && ahead(white, i, j) && file_dist(i, j) <= 1 ==>
        match #[trigger] s[j] {
            Some(q) => q.white == white && file_of(j) != file_of(i),
            None => true,
        }
}

/// A pawn of colour `white` on `i` is isolated when no friendly pawn stands on
/// a neighbouring file.
pub open spec fn isolated(s: Seq<Option<ColoredPiece>>, i: int, white: bool) -> bool {
    forall|j: int| 0 <= j < 64 && file_dist(i, j) == 1 ==>
        #[trigger] s[j] != Some(ColoredPiece { kind: PieceKind::Pawn, white })
}

pub open spec fn color_sign(white: bool) -> int {
    if white { 1 } else { -1 }
}

/// Rank of a square counted from the given side.
pub open spec fn relative_rank(sq: int, white: bool) -> int {
    if white { rank_of(sq) } else { 7 - rank_of(sq) }
}

/// Midgame contribution of the square `i`, white's view.
pub open spec fn term_mg(s: Seq<Option<ColoredPiece>>, i: int) -> int {
    match s[i] {
        None => 0,
        Some(p) => {
            let base = if p.white { MG_VALUE[p.kind.spec_index() as int] + pst_mg(p.kind, i) }
                else { -(MG_VALUE[p.kind.spec_index() as int] + pst_mg(p.kind, mirror(i))) };
            let pass = if p.kind == PieceKind::Pawn && passed(s, i, p.white) {
                color_sign(p.white) * PASSED_PAWN_BONUS[relative_rank(i, p.white)]
            } else { 0 };
            let iso = if p.kind == PieceKind::Pawn && isolated(s, i, p.white) {
                color_sign(p.white) * ISOLATED_PAWN_PENALTY
            } else { 0 };
            base + pass + iso
        },
    }
}

/// Endgame contribution of the square `i`, white's view.
pub open spec fn term_eg(s: Seq<Option<ColoredPiece>>, i: int) -> int {
    match s[i] {
        None => 0,
        Some(p) => {
            let base = if p.white { EG_VALUE[p.kind.spec_index() as int] + pst_eg(p.kind, i) }
                else { -(EG_VALUE[p.kind.spec_index() as int] + pst_eg(p.kind, mirror(i))) };
            let pass = if p.kind == PieceKind::Pawn && passed(s, i, p.white) {
                color_sign(p.white) * PASSED_PAWN_BONUS[relative_rank(i, p.white)] * 2
            } else { 0 };
            let iso = if p.kind == PieceKind::Pawn && isolated(s, i, p.white) {
                color_sign(p.white) * ISOLATED_PAWN_PENALTY / 2
            } else { 0 };
            base + pass + iso
        },
    }
}

pub open spec fn term_phase(s: Seq<Option<ColoredPiece>>, i: int) -> int {
    match s[i] {
        None => 0,
        Some(p) => PIECE_PHASE_VALUES[p.kind.spec_index() as int] as int,
    }
}

pub open spec fn sum_mg(s: Seq<Option<ColoredPiece>>, n: int) -> int
    decreases n,
{
    if n <= 0 { 0 } else { sum_mg(s, n - 1) + term_mg(s, n - 1) }
}

pub open spec fn sum_eg(s: Seq<Option<ColoredPiece>>, n: int) -> int
    decreases n,
{
    if n <= 0 { 0 } else { sum_eg(s, n - 1) + term_eg(s, n - 1) }
}

pub open spec fn sum_phase(s: Seq<Option<ColoredPiece>>, n: int) -> int
    decreases n,
{
    if n <= 0 { 0 } else { sum_phase(s, n - 1) + term_phase(s, n - 1) }
}

/// Integer division rounding toward zero, as Rust's `/` does.
pub open spec fn div_toward_zero(a: int, b: int) -> int {
    if a >= 0 { a / b } else { -((-a) / b) }
}

/// The game phase: summed piece weights, capped at 24.
pub open spec fn phase_of(s: Seq<Option<ColoredPiece>>) -> int {
    let p = sum_phase(s, 64);
    if p < MAX_PHASE { p } else { MAX_PHASE as int }
}

/// The tapered score of 64 squares with the given side to move, from the
/// side to move's point of view.
pub open spec fn tapered_spec(s: Seq<Option<ColoredPiece>>, white: bool) -> int {
    let mg = sum_mg(s, 64) + color_sign(white) * TEMPO_BONUS;
    let eg = sum_eg(s, 64);
    let phase = phase_of(s);
    color_sign(white) * div_toward_zero(mg * phase + eg * (MAX_PHASE - phase), MAX_PHASE as int)
}

/// The largest size of an evaluation: one below the mate scores, so that a
/// static score is never read as a mate and stays inside `(-OO, OO)`.
pub const MAX_EVAL: i32 = 9744;

/// The evaluation: the tapered score, clamped to `[-MAX_EVAL, MAX_EVAL]`.
pub open spec fn eval_spec(s: Seq<Option<ColoredPiece>>, white: bool) -> int {
    let t = tapered_spec(s, white);
    if t > MAX_EVAL { MAX_EVAL as int } else if t < -MAX_EVAL { -MAX_EVAL } else { t }
}

/// What occupies square `sq` of a board, as its queries report it.
pub open spec fn occupant(b: chess::Board, sq: int) -> Option<ColoredPiece> {
    match piece_of(b, sq) {
        Some(k) => match white_on(b, sq) {
            Some(w) => Some(ColoredPiece { kind: k, white: w }),
            None => None,
        },
        None => None,
    }
}

/// The 64 squares of a board.
pub open spec fn squares_of(b: chess::Board) -> Seq<Option<ColoredPiece>> {
    Seq::new(64, |i: int| occupant(b, i))
}

/// The static evaluation of a board.
pub open spec fn board_eval(b: chess::Board) -> int {
    eval_spec(squares_of(b), white_to_move(b))
}

fn pst_mg_at(k: PieceKind, sq: usize) -> (r: i32)
    requires
        sq < 64,
    ensures
        r == pst_mg(k, sq as int),
        -200 <= r <= 200,
{
    match k {
        PieceKind::Pawn => MG_PAWN[sq],
        PieceKind::Knight => MG_KNIGHT[sq],
        PieceKind::Bishop => MG_BISHOP[sq],
        PieceKind::Rook => MG_ROOK[sq],
        PieceKind::Queen => MG_QUEEN[sq],
        PieceKind::King => MG_KING[sq],
    }
}

fn pst_eg_at(k: PieceKind, sq: usize) -> (r: i32)
    requires
        sq < 64,
    ensures
        r == pst_eg(k, sq as int),
        -200 <= r <= 200,
{
    match k {
        PieceKind::Pawn => EG_PAWN[sq],
        PieceKind::Knight => EG_KNIGHT[sq],
        PieceKind::Bishop => EG_BISHOP[sq],
        PieceKind::Rook => EG_ROOK[sq],
        PieceKind::Queen => EG_QUEEN[sq],
        PieceKind::King => EG_KING[sq],
    }
}

/// Whether the pawn of the given colour on `i` is passed.
pub fn is_passed(s: &Vec<Option<ColoredPiece>>, i: usize, white: bool) -> (r: bool)
    requires
        s@.len() == 64,
        i < 64,
    ensures
        r == passed(s@, i as int, white),
{
    let mut j: usize = 0;
    while j < 64
        invariant
            s@.len() == 64,
            i < 64,
            j <= 64,
            forall|k: int| 0 <= k < j && ahead(white, i as int, k) && file_dist(i as int, k) <= 1 ==>
                match #[trigger] s@[k] {
                    Some(q) => q.white == white && file_of(k) != file_of(i as int),
                    None => true,
                },
        decreases 64 - j,
    {
        let fi = i % 8;
        let fj = j % 8;
        let near = if fi >= fj { fi - fj <= 1 } else { fj - fi <= 1 };
        let in_front = if white { j / 8 > i / 8 } else { j / 8 < i / 8 };
        if near && in_front {
            match s[j] {
                Some(q) => {
                    if q.white != white || fj == fi {
                        return false;
                    }
                },
                None => {},
            }
        }
        j += 1;
    }
    true
}

/// Whether the pawn of the given colour on `i` is isolated.
pub fn is_isolated(s: &Vec<Option<ColoredPiece>>, i: usize, white: bool) -> (r: bool)
    requires
        s@.len() == 64,
        i < 64,
    ensures
        r == isolated(s@, i as int, white),
{
    let mut j: usize = 0;
    while j < 64
        invariant
            s@.len() == 64,
            i < 64,
            j <= 64,
            forall|k: int| 0 <= k < j && file_dist(i as int, k) == 1 ==>
                #[trigger] s@[k] != Some(ColoredPiece { kind: PieceKind::Pawn, white }),
        decreases 64 - j,
    {
        let fi = i % 8;
        let fj = j % 8;
        let neighbour = if fi >= fj { fi - fj == 1 } else { fj - fi == 1 };
        if neighbour {
            match s[j] {
                Some(q) => {
                    if q.white == white && q.kind == PieceKind::Pawn {
                        return false;
                    }
                },
                None => {},
            }
        }
        j += 1;
    }
    true
}

/// Midgame and endgame contributions and phase weight of one square.
fn square_terms(s: &Vec<Option<ColoredPiece>>, i: usize) -> (r: (i32, i32, i32))
    requires
        s@.len() == 64,
        i < 64,
    ensures
        r.0 == term_mg(s@, i as int),
        r.1 == term_eg(s@, i as int),
        r.2 == term_phase(s@, i as int),
        -1500 <= r.0 <= 1500,
        -1500 <= r.1 <= 1500,
        0 <= r.2 <= 4,
{
    match s[i] {
        None => (0, 0, 0),
        Some(p) => {
            let k = p.kind.index();
            let sign: i32 = if p.white { 1 } else { -1 };
            let sq = if p.white { i } else { (7 - i / 8) * 8 + i % 8 };
            let mut mg: i32 = sign * (MG_VALUE[k] + pst_mg_at(p.kind, sq));
            let mut eg: i32 = sign * (EG_VALUE[k] + pst_eg_at(p.kind, sq));
            if p.kind == PieceKind::Pawn {
                if is_passed(s, i, p.white) {
                    let rank = if p.white { i / 8 } else { 7 - i / 8 };
                    let bonus = PASSED_PAWN_BONUS[rank];
                    mg = mg + sign * bonus;
                    eg = eg + sign * bonus * 2;
                }
                if is_isolated(s, i, p.white) {
                    mg = mg + sign * ISOLATED_PAWN_PENALTY;
                    eg = eg + if p.white { -10 } else { 10 };
                }
            }
            (mg, eg, PIECE_PHASE_VALUES[k])
        },
    }
}

/// Evaluates 64 squares (0 = a1 .. 63 = h8) with the given side to move,
/// from the side to move's point of view.
pub fn evaluate(s: &Vec<Option<ColoredPiece>>, white_to_move: bool) -> (r: i32)
    requires
        s@.len() == 64,
    ensures
        r == eval_spec(s@, white_to_move),
{
    let mut mg: i32 = 0;
    let mut eg: i32 = 0;
    let mut phase: i32 = 0;
    let mut i: usize = 0;
    while i < 64
        invariant
            s@.len() == 64,
            i <= 64,
            mg == sum_mg(s@, i as int),
            eg == sum_eg(s@, i as int),
            phase == sum_phase(s@, i as int),
            -1500 * i <= mg <= 1500 * i,
            -1500 * i <= eg <= 1500 * i,
            0 <= phase <= 4 * i,
        decreases 64 - i,
    {
        let t = square_terms(s, i);
        mg = mg + t.0;
        eg = eg + t.1;
        phase = phase + t.2;
        i += 1;
    }
    let sign: i32 = if white_to_move { 1 } else { -1 };
    mg = mg + sign * TEMPO_BONUS;
    let phase = if phase < MAX_PHASE { phase } else { MAX_PHASE };
    assert(-96010 * 24 <= mg * phase <= 96010 * 24) by (nonlinear_arith)
        requires -96010 <= mg <= 96010, 0 <= phase <= 24;
    assert(-96000 * 24 <= eg * (MAX_PHASE - phase) <= 96000 * 24) by (nonlinear_arith)
        requires -96000 <= eg <= 96000, 0 <= MAX_PHASE - phase <= 24;
    let total = mg * phase + eg * (MAX_PHASE - phase);
    let sc = if total >= 0 { total / MAX_PHASE } else { -((-total) / MAX_PHASE) };
    let t = sign * sc;
    if t > MAX_EVAL {
        MAX_EVAL
    } else if t < -MAX_EVAL {
        -MAX_EVAL
    } else {
        t
    }
}

/// The static evaluation of a board from the side to move's point of view;
/// it always lies strictly between `-OO` and `OO` and is never a mate score.
pub fn eval(board: &chess::Board) -> (r: i32)
    ensures
        r == board_eval(*board),
        -crate::engine::OO < r < crate::engine::OO,
        !crate::engine::is_mate_spec(r as int),
{
    let mut squares: Vec<Option<ColoredPiece>> = Vec::new();
    let mut sq: u8 = 0;
    while sq < 64
        invariant
            sq <= 64,
            squares@.len() == sq,
            forall|k: int| 0 <= k < sq ==> squares@[k] == occupant(*board, k),
        decreases 64 - sq,
    {
        let cell = match piece_on(board, sq) {
            Some(k) => match color_on(board, sq) {
                Some(w) => Some(ColoredPiece { kind: k, white: w }),
                None => None,
            },
            None => None,
        };
        squares.push(cell);
        sq += 1;
    }
    assert(squares@ =~= squares_of(*board));
    evaluate(&squares, side_is_white(board))
}

} // verus!
