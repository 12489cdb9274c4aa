//! Search statistics: monotonic counters and the histogram of the index at
//! which the chosen or cutoff move came out of the move producer.
use vstd::prelude::*;
use crate::ordering::MAX_MOVES;

verus! {

/// One more, staying at the maximum once there.
pub open spec fn bump_spec(x: u64) -> u64 {
    if x < u64::MAX { (x + 1) as u64 } else { x }
}

pub fn bump(x: u64) -> (r: u64)
    ensures
        r == bump_spec(x),
{
    if x < u64::MAX { x + 1 } else { x }
}

/// Counters of one iteration of the search.
pub struct Stats {
    pub nodes_searched: u64,
    pub qnodes_searched: u64,
    pub check_extension: u64,
    pub tt_check: u64,
    pub tt_hit: u64,
    /// `move_index_dist[i]` counts the nodes whose best or cutoff move was
    /// the `i`-th one produced.
    pub move_index_dist: Vec<u32>,
}

impl Stats {
    pub open spec fn wf(&self) -> bool {
        self.move_index_dist@.len() == MAX_MOVES
    }

    pub open spec fn is_zero(&self) -> bool {
        &&& self.wf()
        &&& self.nodes_searched == 0
        &&& self.qnodes_searched == 0
        &&& self.check_extension == 0
        &&& self.tt_check == 0
        &&& self.tt_hit == 0
        &&& forall|i: int| 0 <= i < MAX_MOVES ==> #[trigger] self.move_index_dist@[i] == 0
    }

    /// All counters at zero.
    pub fn new() -> (r: Stats)
        ensures
            r.is_zero(),
    {
        let mut dist: Vec<u32> = Vec::new();
        let mut i: usize = 0;
        while i < MAX_MOVES
            invariant
                i <= MAX_MOVES,
                dist@.len() == i,
                forall|k: int| 0 <= k < i ==> #[trigger] dist@[k] == 0,
            decreases MAX_MOVES - i,
        {
            dist.push(0);
            i += 1;
        }
        Stats {
            nodes_searched: 0,
            qnodes_searched: 0,
            check_extension: 0,
            tt_check: 0,
            tt_hit: 0,
            move_index_dist: dist,
        }
    }

    /// Sets every counter back to zero.
    pub fn reset(&mut self)
        ensures
            final(self).is_zero(),
    {
        *self = Stats::new();
    }

    /// Counts one node whose chosen move came out at index `i`.
    pub fn add_move_index(&mut self, i: usize)
        requires
            old(self).wf(),
            i < MAX_MOVES,
        ensures
            final(self).wf(),
            final(self).move_index_dist@ == old(self).move_index_dist@.update(i as int,
                if old(self).move_index_dist@[i as int] < u32::MAX {
                    (old(self).move_index_dist@[i as int] + 1) as u32
                } else {
                    old(self).move_index_dist@[i as int]
                }),
            final(self).nodes_searched == old(self).nodes_searched,
            final(self).qnodes_searched == old(self).qnodes_searched,
            final(self).check_extension == old(self).check_extension,
            final(self).tt_check == old(self).tt_check,
            final(self).tt_hit == old(self).tt_hit,
    {
        let c = self.move_index_dist[i];
        if c < u32::MAX {
            self.move_index_dist.set(i, c + 1);
        }
    }
}

} // verus!
