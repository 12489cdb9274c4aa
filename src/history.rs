//! The recent-position ring used to detect threefold repetition.
use vstd::prelude::*;

verus! {

/// Number of recent position hashes kept.
pub const HISTORY_LEN: usize = 9;

/// How many of the first `n` elements of `s` equal `x`.
pub open spec fn count_eq(s: Seq<u64>, x: u64, n: int) -> nat
    decreases n,
{
    if n <= 0 {
        0
    } else {
        count_eq(s, x, n - 1) + if s[n - 1] == x { 1nat } else { 0nat }
    }
}

/// The ring after pushing `key` when it is not already the newest entry:
/// everything shifts one place toward the front and `key` is appended.
pub open spec fn shift_in(s: Seq<u64>, key: u64) -> Seq<u64> {
    s.subrange(1, s.len() as int).push(key)
}

/// The ring after a push that ignores a repeat of the newest entry.
pub open spec fn push_spec(s: Seq<u64>, key: u64) -> Seq<u64> {
    if s[s.len() - 1] == key { s } else { shift_in(s, key) }
}

/// Whether three or more slots hold the newest hash (the newest included).
pub open spec fn three_rep_spec(s: Seq<u64>) -> bool {
    count_eq(s, s[s.len() - 1], s.len() as int) >= 3
}

/// The hashes of the last nine positions, oldest first. It starts with nine
/// distinct sentinels so that a fresh history never reports a repetition.
#[derive(Clone, Copy, Debug)]
pub struct History {
    history: [u64; 9],
}

impl View for History {
    type V = Seq<u64>;

    closed spec fn view(&self) -> Seq<u64> {
        self.history@
    }
}

impl History {
    /// Every history holds nine slots.
    pub proof fn lemma_len(&self)
        ensures
            self@.len() == HISTORY_LEN,
    {
    }

    pub fn new() -> (r: History)
        ensures
            r@ == seq![1u64, 2, 3, 4, 5, 6, 7, 8, 9],
    {
        let r = History { history: [1, 2, 3, 4, 5, 6, 7, 8, 9] };
        assert(r@ =~= seq![1u64, 2, 3, 4, 5, 6, 7, 8, 9]);
        r
    }

    fn shift(&mut self, new_key: u64)
        ensures
            final(self)@ == shift_in(old(self)@, new_key),
    {
        let mut i: usize = 0;
        while i < HISTORY_LEN - 1
            invariant
                0 <= i <= HISTORY_LEN - 1,
                self@.len() == HISTORY_LEN,
                forall|k: int| 0 <= k < i ==> self@[k] == old(self)@[k + 1],
                forall|k: int| i <= k < HISTORY_LEN ==> self@[k] == old(self)@[k],
            decreases HISTORY_LEN - 1 - i,
        {
            self.history[i] = self.history[i + 1];
            i += 1;
        }
        self.history[HISTORY_LEN - 1] = new_key;
        assert(self@ =~= shift_in(old(self)@, new_key));
    }

    /// Records a position hash, unless it is already the newest one (so that
    /// a repeated protocol update does not fill the ring).
    pub fn push_hist(&mut self, new_key: u64)
        ensures
            final(self)@ == push_spec(old(self)@, new_key),
    {
        if self.history[HISTORY_LEN - 1] == new_key {
            return;
        }
        self.shift(new_key);
    }

    /// A copy with the hash recorded, for one branch of the search; like
    /// `push_hist`, a repeat of the newest hash leaves it as it is.
    pub fn push_hist_new(&self, new_key: u64) -> (r: History)
        ensures
            r@ == push_spec(self@, new_key),
    {
        let mut newhist = *self;
        newhist.push_hist(new_key);
        newhist
    }

    /// Whether three or more of the nine slots match the newest hash.
    pub fn is_three_rep(&self) -> (r: bool)
        ensures
            r == three_rep_spec(self@),
    {
        let newest: u64 = self.history[HISTORY_LEN - 1];
        let mut reps: u8 = 0;
        let mut i: usize = 0;
        while i < HISTORY_LEN
            invariant
                0 <= i <= HISTORY_LEN,
                self@.len() == HISTORY_LEN,
                newest == self@[HISTORY_LEN - 1],
                reps == count_eq(self@, newest, i as int),
                reps <= i,
            decreases HISTORY_LEN - i,
        {
            if newest == self.history[i] {
                reps += 1;
            }
            i += 1;
        }
        reps >= 3
    }
}

impl Default for History {
    fn default() -> (r: History)
        ensures
            r@ == seq![1u64, 2, 3, 4, 5, 6, 7, 8, 9],
    {
        History::new()
    }
}

/// With nine distinct hashes in the ring no repetition is reported.
pub proof fn lemma_distinct_no_repetition(h: History)
    requires
        forall|i: int, j: int| 0 <= i < j < HISTORY_LEN ==> h@[i] != h@[j],
    ensures
        !three_rep_spec(h@),
{
    h.lemma_len();
    let s = h@;
    let x = s[HISTORY_LEN - 1];
    lemma_count_absent(s, x, HISTORY_LEN - 1);
    assert(count_eq(s, x, HISTORY_LEN - 1) == 0);
    assert(count_eq(s, x, HISTORY_LEN as int) == 1);
}

proof fn lemma_count_absent(s: Seq<u64>, x: u64, n: int)
    requires
        0 <= n <= s.len(),
        forall|i: int| 0 <= i < n ==> s[i] != x,
    ensures
        count_eq(s, x, n) == 0,
    decreases n,
{
    if n > 0 {
        lemma_count_absent(s, x, n - 1);
    }
}

/// The fresh ring holds nine distinct sentinels, so it reports no repetition.
pub proof fn lemma_new_no_repetition(h: History)
    requires
        h@ == seq![1u64, 2, 3, 4, 5, 6, 7, 8, 9],
    ensures
        !three_rep_spec(h@),
{
    lemma_distinct_no_repetition(h);
}

/// Pushing one key three times, with other keys in between, makes the ring
/// report a repetition, whatever it held before.
pub proof fn lemma_three_pushes_repeat(h: History, k: u64, a: u64, b: u64)
    requires
        a != k,
        b != k,
    ensures
        three_rep_spec(push_spec(push_spec(push_spec(push_spec(push_spec(h@, k), a), k), b), k)),
{
    h.lemma_len();
    let s0 = h@;
    let s1 = push_spec(s0, k);
    let s2 = push_spec(s1, a);
    let s3 = push_spec(s2, k);
    let s4 = push_spec(s3, b);
    let s5 = push_spec(s4, k);
    assert(s1.len() == 9 && s1[8] == k);
    assert(s2 == shift_in(s1, a));
    assert(s2.len() == 9 && s2[8] == a && s2[7] == k);
    assert(s3 == shift_in(s2, k));
    assert(s3.len() == 9 && s3[8] == k && s3[7] == a && s3[6] == k);
    assert(s4 == shift_in(s3, b));
    assert(s4.len() == 9 && s4[8] == b && s4[7] == k && s4[6] == a && s4[5] == k);
    assert(s5 == shift_in(s4, k));
    assert(s5[8] == k && s5[6] == k && s5[4] == k);
    assert(count_eq(s5, k, 9) >= 3) by {
        reveal_with_fuel(count_eq, 10);
    }
}

} // verus!
