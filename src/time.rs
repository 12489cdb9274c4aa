//! The time manager: whether another iteration of the search may start.
use vstd::prelude::*;
use crate::board::{side_is_white, white_to_move};
use crate::engine::MAX_PLY;

verus! {

/// Assumed ratio between the time of one iteration and the next.
pub const ESTIMATE_TIME_BRANCHING_FACTOR: u64 = 8;
/// Remaining clock assumed when none is given, in milliseconds.
pub const DEFAULT_BOARD_TIME: u32 = 300_000;
/// Per-move cap when the search command carries no time information.
pub const DEFAULT_MOVE_TIME: u32 = 5_000;

/// The time control of a search command, times in milliseconds.
#[derive(Clone, Copy, Debug, PartialEq, Eq)]
pub enum TimeControl {
    Infinite,
    MoveTime(i64),
    TimeLeft { white_time: Option<i64>, black_time: Option<i64> },
}

/// Limits of one search. Read-only once built.
#[derive(Clone, Copy, Debug, PartialEq, Eq)]
pub struct TimeManager {
    pub max_depth: Option<u8>,
    pub min_depth: Option<u8>,
    pub max_nodes: Option<u64>,
    pub board_time: Option<u32>,
    pub max_allowed_time_now: Option<u32>,
}

pub open spec fn opt_or<T>(o: Option<T>, d: T) -> T {
    match o {
        Some(v) => v,
        None => d,
    }
}

/// Milliseconds as a `u32`, negative values as 0 and large ones as the maximum.
pub open spec fn clamp_ms(ms: i64) -> u32 {
    if ms < 0 { 0 } else if ms > u32::MAX { u32::MAX } else { ms as u32 }
}

fn to_ms(ms: i64) -> (r: u32)
    ensures
        r == clamp_ms(ms),
{
    if ms < 0 {
        0
    } else if ms > u32::MAX as i64 {
        u32::MAX
    } else {
        ms as u32
    }
}

impl TimeManager {
    /// The soft gate, asked between iterations: below the minimum depth
    /// always go on; past the maximum depth stop; otherwise stop when the
    /// projected time of the next iteration exceeds a thirtieth of the clock
    /// or the per-move cap.
    pub open spec fn soft_spec(&self, depth: u8, elapsed_ms: int) -> bool {
        if depth < opt_or(self.min_depth, 0u8) {
            true
        } else if depth > opt_or(self.max_depth, MAX_PLY) {
            false
        } else {
            let projected = elapsed_ms * ESTIMATE_TIME_BRANCHING_FACTOR;
            if projected > opt_or(self.board_time, DEFAULT_BOARD_TIME) / 30 {
                false
            } else {
                match self.max_allowed_time_now {
                    Some(m) => projected <= m,
                    None => true,
                }
            }
        }
    }

    /// The hard gate: stop past the maximum depth, after a twentieth of the
    /// clock, past the node cap, or past the per-move cap.
    pub open spec fn hard_spec(&self, depth: u8, nodes: u64, elapsed_ms: int) -> bool {
        if depth > opt_or(self.max_depth, MAX_PLY) {
            false
        } else if elapsed_ms > opt_or(self.board_time, DEFAULT_BOARD_TIME) / 20 {
            false
        } else if nodes > opt_or(self.max_nodes, u64::MAX) {
            false
        } else {
            match self.max_allowed_time_now {
                Some(m) => elapsed_ms <= m,
                None => true,
            }
        }
    }

    /// Whether another iteration at `depth` may start, `elapsed_ms` into the
    /// search.
    pub fn can_continue_soft(&self, depth: u8, elapsed_ms: u64) -> (r: bool)
        ensures
            r == self.soft_spec(depth, elapsed_ms as int),
    {
        let min_depth = match self.min_depth {
            Some(d) => d,
            None => 0,
        };
        if depth < min_depth {
            return true;
        }
        let max_depth = match self.max_depth {
            Some(d) => d,
            None => MAX_PLY,
        };
        if depth > max_depth {
            return false;
        }
        // Past the largest u64 the projection exceeds every bound alike.
        let projected: u64 = if elapsed_ms > u64::MAX / ESTIMATE_TIME_BRANCHING_FACTOR {
            u64::MAX
        } else {
            elapsed_ms * ESTIMATE_TIME_BRANCHING_FACTOR
        };
        let board_time = match self.board_time {
            Some(t) => t,
            None => DEFAULT_BOARD_TIME,
        };
        if projected > (board_time / 30) as u64 {
            return false;
        }
        match self.max_allowed_time_now {
            Some(m) => projected <= m as u64,
            None => true,
        }
    }

    /// Whether the search must stop at once.
    pub fn can_continue_hard(&self, depth: u8, nodes: u64, elapsed_ms: u64) -> (r: bool)
        ensures
            r == self.hard_spec(depth, nodes, elapsed_ms as int),
    {
        let max_depth = match self.max_depth {
            Some(d) => d,
            None => MAX_PLY,
        };
        if depth > max_depth {
            return false;
        }
        let board_time = match self.board_time {
            Some(t) => t,
            None => DEFAULT_BOARD_TIME,
        };
        if elapsed_ms > (board_time / 20) as u64 {
            return false;
        }
        let max_nodes = match self.max_nodes {
            Some(n) => n,
            None => u64::MAX,
        };
        if nodes > max_nodes {
            return false;
        }
        match self.max_allowed_time_now {
            Some(m) => elapsed_ms <= m as u64,
            None => true,
        }
    }

    /// The limits of a time control: none for `Infinite`, a per-move cap for
    /// `MoveTime`, and the clock of the side to move for `TimeLeft`.
    pub fn from_uci(uci: &TimeControl, board: &chess::Board) -> (r: TimeManager)
        ensures
            r.max_depth is None,
            r.min_depth is None,
            r.max_nodes is None,
            r.board_time == match *uci {
                TimeControl::TimeLeft { white_time, black_time } => {
                    match if white_to_move(*board) { white_time } else { black_time } {
                        Some(t) => Some(clamp_ms(t)),
                        None => None,
                    }
                },
                _ => None,
            },
            r.max_allowed_time_now == match *uci {
                TimeControl::MoveTime(x) => Some(clamp_ms(x)),
                _ => None,
            },
    {
        match uci {
            TimeControl::Infinite => TimeManager {
                max_depth: None,
                min_depth: None,
                max_nodes: None,
                board_time: None,
                max_allowed_time_now: None,
            },
            TimeControl::MoveTime(x) => TimeManager {
                max_depth: None,
                min_depth: None,
                max_nodes: None,
                board_time: None,
                max_allowed_time_now: Some(to_ms(*x)),
            },
            TimeControl::TimeLeft { white_time, black_time } => {
                let time = if side_is_white(board) { *white_time } else { *black_time };
                let board_time = match time {
                    Some(t) => Some(to_ms(t)),
                    None => None,
                };
                TimeManager {
                    max_depth: None,
                    min_depth: None,
                    max_nodes: None,
                    board_time,
                    max_allowed_time_now: None,
                }
            },
        }
    }

    /// The limits of a search command without time information.
    pub fn without_time_control() -> (r: TimeManager)
        ensures
            r == (TimeManager {
                max_depth: None,
                min_depth: None,
                max_nodes: None,
                board_time: None,
                max_allowed_time_now: Some(DEFAULT_MOVE_TIME),
            }),
    {
        TimeManager {
            max_depth: None,
            min_depth: None,
            max_nodes: None,
            board_time: None,
            max_allowed_time_now: Some(DEFAULT_MOVE_TIME),
        }
    }

    /// These limits with a depth cap and a node cap added where given.
    pub fn with_search_limits(self, depth: Option<u8>, nodes: Option<u64>) -> (r: TimeManager)
        ensures
            r.max_depth == (if depth is Some { depth } else { self.max_depth }),
            r.max_nodes == (if nodes is Some { nodes } else { self.max_nodes }),
            r.min_depth == self.min_depth,
            r.board_time == self.board_time,
            r.max_allowed_time_now == self.max_allowed_time_now,
    {
        TimeManager {
            max_depth: if depth.is_some() { depth } else { self.max_depth },
            max_nodes: if nodes.is_some() { nodes } else { self.max_nodes },
            ..self
        }
    }

    /// A preset for test runs: at least depth 8, five seconds per move.
    pub fn test_preset() -> (r: TimeManager)
        ensures
            r == (TimeManager {
                max_depth: None,
                min_depth: Some(8),
                max_nodes: None,
                board_time: None,
                max_allowed_time_now: Some(5000),
            }),
    {
        TimeManager {
            max_depth: None,
            min_depth: Some(8),
            max_nodes: None,
            board_time: None,
            max_allowed_time_now: Some(5000),
        }
    }
}

/// Once the soft gate says stop at some elapsed time, it says stop at every
/// later time, all else equal.
pub proof fn lemma_soft_gate_monotone(tm: TimeManager, depth: u8, t: int, t2: int)
    requires
        0 <= t <= t2,
        !tm.soft_spec(depth, t),
    ensures
        !tm.soft_spec(depth, t2),
{
    assert(t * ESTIMATE_TIME_BRANCHING_FACTOR <= t2 * ESTIMATE_TIME_BRANCHING_FACTOR) by (nonlinear_arith)
        requires 0 <= t <= t2;
}

/// A wall-clock instant.
#[verifier::external_type_specification]
#[verifier::external_body]
pub struct ExInstant(std::time::Instant);

/// Relies on `std::time::Instant::now`.
#[verifier::external_body]
pub(crate) fn now() -> (r: std::time::Instant) {
    std::time::Instant::now()
}

/// Relies on `std::time::Instant::elapsed`: milliseconds since `start`.
#[verifier::external_body]
pub(crate) fn elapsed_ms(start: &std::time::Instant) -> (r: u64) {
    start.elapsed().as_millis() as u64
}

} // verus!
