//! The transposition table: a fixed number of slots indexed by the low bits
//! of a position's hash, with an always-replace policy.
use vstd::prelude::*;
use crate::board::Move;

verus! {

/// The kind of bound that a stored score is.
#[derive(Clone, Copy, Debug, PartialEq, Eq, PartialOrd, Structural)]
pub enum NodeType {
    Exact,
    LowerBound,
    UpperBound,
    /// An unused slot; never a hit.
    Default,
}

/// One stored search result.
#[derive(Clone, Copy, Debug, PartialEq, Eq, PartialOrd, Structural)]
pub struct TranspositionEntry {
    pub key: u64,
    pub depth: u8,
    pub node_type: NodeType,
    pub value: i32,
    pub best_move: Option<Move>,
}

impl TranspositionEntry {
    /// The entry of an unused slot.
    pub open spec fn spec_empty() -> TranspositionEntry {
        TranspositionEntry { key: 0, depth: 0, node_type: NodeType::Default, value: 0, best_move: None }
    }

    pub fn empty() -> (r: TranspositionEntry)
        ensures
            r == Self::spec_empty(),
    {
        TranspositionEntry { key: 0, depth: 0, node_type: NodeType::Default, value: 0, best_move: None }
    }

    pub open spec fn spec_is_valid(self, key: u64) -> bool {
        self.key == key && self.node_type != NodeType::Default
    }

    /// An entry is a hit for `key` when it was stored under that key and is
    /// not an unused slot.
    pub fn is_valid(&self, key: u64) -> (r: bool)
        ensures
            r == self.spec_is_valid(key),
    {
        self.key == key && !matches!(self.node_type, NodeType::Default)
    }
}

impl Default for TranspositionEntry {
    /// The entry of an unused slot.
    fn default() -> (r: TranspositionEntry)
        ensures
            r == TranspositionEntry::spec_empty(),
    {
        TranspositionEntry::empty()
    }
}

/// The `chess` crate's fixed-size cache of (hash, entry) slots.
#[verifier::external_type_specification]
#[verifier::external_body]
#[verifier::reject_recursive_types(T)]
pub struct ExCacheTable<T: Copy + Clone + PartialEq + PartialOrd>(chess::CacheTable<T>);

/// The slots of a `chess::CacheTable`, each a stored hash and its entry.
pub uninterp spec fn cache_slots(t: chess::CacheTable<TranspositionEntry>) -> Seq<(u64, TranspositionEntry)>;

/// The slot that a hash falls into in a table of `n` slots: `CacheTable`
/// masks the hash with `n - 1`.
pub open spec fn slot_of(hash: u64, n: int) -> int {
    ((hash as usize) & ((n - 1) as usize)) as int
}

pub proof fn lemma_slot_in_range(hash: u64, n: int)
    requires
        0 < n <= usize::MAX,
    ensures
        0 <= slot_of(hash, n) < n,
{
    let h = hash as usize;
    let m = (n - 1) as usize;
    assert(h & m <= m) by (bit_vector);
}

/// Relies on `chess::CacheTable::new`: `size` slots, each holding hash 0 and
/// `default`; it panics unless `size` has exactly one bit set.
#[verifier::external_body]
fn cache_new(size: usize, default: TranspositionEntry) -> (r: chess::CacheTable<TranspositionEntry>)
    requires
        size > 0,
        (size & (size - 1) as usize) == 0,
    ensures
        cache_slots(r) == Seq::new(size as nat, |i: int| (0u64, default)),
{
    chess::CacheTable::new(size, default)
}

/// Relies on `chess::CacheTable::get`: the entry of the hash's slot when that
/// slot holds the same hash.
#[verifier::external_body]
fn cache_get(t: &chess::CacheTable<TranspositionEntry>, hash: u64) -> (r: Option<TranspositionEntry>)
    requires
        cache_slots(*t).len() > 0,
    ensures
        ({
            let s = cache_slots(*t)[slot_of(hash, cache_slots(*t).len() as int)];
            r == if s.0 == hash { Some(s.1) } else { None }
        }),
{
    t.get(hash)
}

/// Relies on `chess::CacheTable::add`: the hash's slot is overwritten.
#[verifier::external_body]
fn cache_add(t: &mut chess::CacheTable<TranspositionEntry>, hash: u64, e: TranspositionEntry)
    requires
        cache_slots(*old(t)).len() > 0,
    ensures
        cache_slots(*final(t)) == cache_slots(*old(t)).update(
            slot_of(hash, cache_slots(*old(t)).len() as int), (hash, e)),
{
    t.add(hash, e)
}

/// Bytes of one `TranspositionEntry`.
pub const ENTRY_BYTES: usize = 24;

/// The number of entries that `mb` MiB hold, rounded up.
pub open spec fn entries_for(mb: int) -> int {
    (mb * 1_048_576 + ENTRY_BYTES - 1) / (ENTRY_BYTES as int)
}

/// The entry that a probe of `key` finds in the slots `v`: the slot's entry
/// when the slot holds `key`, else an unused entry.
pub open spec fn get_spec(v: Seq<(u64, TranspositionEntry)>, key: u64) -> TranspositionEntry {
    let s = v[slot_of(key, v.len() as int)];
    if s.0 == key { s.1 } else { TranspositionEntry::spec_empty() }
}

/// The slots after storing `e`: its key's slot is overwritten.
pub open spec fn set_spec(v: Seq<(u64, TranspositionEntry)>, e: TranspositionEntry) -> Seq<(u64, TranspositionEntry)> {
    v.update(slot_of(e.key, v.len() as int), (e.key, e))
}

/// Every score in the slots lies within `[-bound, bound]`.
pub open spec fn slots_within(v: Seq<(u64, TranspositionEntry)>, bound: int) -> bool {
    forall|i: int| 0 <= i < v.len() ==> -bound <= (#[trigger] v[i]).1.value <= bound
}

/// A probe finds a score within the bound that every slot keeps.
pub proof fn lemma_get_within(v: Seq<(u64, TranspositionEntry)>, key: u64, bound: int)
    requires
        is_pow2(v.len() as int),
        slots_within(v, bound),
        bound >= 0,
    ensures
        -bound <= get_spec(v, key).value <= bound,
{
    lemma_slot_in_range(key, v.len() as int);
}

/// Storing a score within the bound keeps every slot within it.
pub proof fn lemma_set_within(v: Seq<(u64, TranspositionEntry)>, e: TranspositionEntry, bound: int)
    requires
        is_pow2(v.len() as int),
        slots_within(v, bound),
        -bound <= e.value <= bound,
    ensures
        slots_within(set_spec(v, e), bound),
        set_spec(v, e).len() == v.len(),
{
    lemma_slot_in_range(e.key, v.len() as int);
}

/// The slots after storing each of `es` in turn.
pub open spec fn set_all(v: Seq<(u64, TranspositionEntry)>, es: Seq<TranspositionEntry>) -> Seq<(u64, TranspositionEntry)>
    decreases es.len(),
{
    if es.len() == 0 {
        v
    } else {
        set_all(set_spec(v, es[0]), es.drop_first())
    }
}

/// Storing an entry and then probing its key gives the entry back, also
/// after further stores whose keys fall into other slots.
pub proof fn lemma_set_get_round_trip(v: Seq<(u64, TranspositionEntry)>, e: TranspositionEntry, later: Seq<TranspositionEntry>)
    requires
        is_pow2(v.len() as int),
        forall|i: int| 0 <= i < later.len() ==>
            slot_of((#[trigger] later[i]).key, v.len() as int) != slot_of(e.key, v.len() as int),
    ensures
        get_spec(set_all(set_spec(v, e), later), e.key) == e,
    decreases later.len(),
{
    lemma_slot_in_range(e.key, v.len() as int);
    let n = v.len() as int;
    let w = set_spec(v, e);
    assert(w.len() == n);
    assert(w[slot_of(e.key, n)] == (e.key, e));
    lemma_others_keep_slot(w, e.key, (e.key, e), later);
}

proof fn lemma_others_keep_slot(w: Seq<(u64, TranspositionEntry)>, key: u64, slot: (u64, TranspositionEntry), later: Seq<TranspositionEntry>)
    requires
        is_pow2(w.len() as int),
        w[slot_of(key, w.len() as int)] == slot,
        slot.0 == key,
        forall|i: int| 0 <= i < later.len() ==>
            slot_of((#[trigger] later[i]).key, w.len() as int) != slot_of(key, w.len() as int),
    ensures
        set_all(w, later).len() == w.len(),
        get_spec(set_all(w, later), key) == slot.1,
    decreases later.len(),
{
    lemma_slot_in_range(key, w.len() as int);
    if later.len() > 0 {
        let f = later[0];
        lemma_slot_in_range(f.key, w.len() as int);
        let w2 = set_spec(w, f);
        assert(w2.len() == w.len());
        assert(w2[slot_of(key, w.len() as int)] == slot);
        let rest = later.drop_first();
        assert forall|i: int| 0 <= i < rest.len() implies
            slot_of((#[trigger] rest[i]).key, w2.len() as int) != slot_of(key, w2.len() as int) by {
            assert(rest[i] == later[i + 1]);
        }
        lemma_others_keep_slot(w2, key, slot, rest);
    }
}

/// Every slot's stored hash is its entry's key.
pub open spec fn slots_keyed(v: Seq<(u64, TranspositionEntry)>) -> bool {
    forall|i: int| 0 <= i < v.len() ==> (#[trigger] v[i]).0 == v[i].1.key
}

/// Whether `n` has exactly one bit set.
pub open spec fn is_pow2(n: int) -> bool {
    0 < n <= usize::MAX && ((n as usize) & ((n - 1) as usize)) == 0
}

/// A transposition table.
pub struct TT {
    t: chess::CacheTable<TranspositionEntry>,
    n_entries: usize,
}

impl View for TT {
    type V = Seq<(u64, TranspositionEntry)>;

    closed spec fn view(&self) -> Seq<(u64, TranspositionEntry)> {
        cache_slots(self.t)
    }
}

impl TT {
    pub closed spec fn wf(&self) -> bool {
        &&& is_pow2(self@.len() as int)
        &&& self.n_entries == self@.len()
        &&& slots_keyed(self@)
    }

    /// Every table has a power-of-two number of slots.
    pub proof fn lemma_wf(&self)
        requires
            self.wf(),
        ensures
            is_pow2(self@.len() as int),
    {
    }

    /// The number of slots.
    pub fn len(&self) -> (r: usize)
        requires
            self.wf(),
        ensures
            r == self@.len(),
    {
        self.n_entries
    }

    /// Every stored score lies within `[-bound, bound]`.
    pub open spec fn values_within(&self, bound: int) -> bool {
        slots_within(self@, bound)
    }

    /// Storing an entry in a table and probing its key gives the entry back,
    /// also after further stores whose keys fall into other slots: `after`
    /// is the table once `e` and then each of `later` were stored with `set`.
    pub proof fn lemma_table_round_trip(before: TT, after: TT, e: TranspositionEntry, later: Seq<TranspositionEntry>)
        requires
            before.wf(),
            after@ == set_all(set_spec(before@, e), later),
            forall|i: int| 0 <= i < later.len() ==>
                slot_of((#[trigger] later[i]).key, before@.len() as int) != slot_of(e.key, before@.len() as int),
        ensures
            get_spec(after@, e.key) == e,
    {
        lemma_set_get_round_trip(before@, e, later);
    }

    /// A table for `mb` MiB: the smallest power of two of slots that is at
    /// least `mb * 2^20 / ENTRY_BYTES`, every slot unused.
    pub fn new_with_size_mb(mb: usize) -> (r: TT)
        requires
            1 <= mb <= 8192,
        ensures
            r.wf(),
            entries_for(mb as int) <= r@.len() < 2 * entries_for(mb as int),
            mb * 1_048_576 <= r@.len() * ENTRY_BYTES,
            forall|i: int| 0 <= i < r@.len() ==> #[trigger] r@[i] == (0u64, TranspositionEntry::spec_empty()),
    {
        let bytes: u64 = mb as u64 * 1_048_576;
        assert(bytes <= 8192 * 1_048_576);
        assert((bytes + 23) / 24 <= 0x2000_0000) by (nonlinear_arith)
            requires bytes <= 8192 * 1_048_576;
        let budget: usize = ((bytes + ENTRY_BYTES as u64 - 1) / ENTRY_BYTES as u64) as usize;
        let mut n: usize = 1;
        assert((1usize & 0usize) == 0) by (bit_vector);
        while n < budget
            invariant
                budget == entries_for(mb as int),
                1 <= budget <= 0x2000_0000usize,
                1 <= n < 2 * budget,
                (n & (n - 1) as usize) == 0,
            decreases 2 * budget - n,
        {
            assert(((n & (n - 1) as usize) == 0 && 1 <= n && n <= 0x2000_0000usize)
                ==> (((n * 2) as usize & ((n * 2) as usize - 1) as usize) == 0)) by (bit_vector);
            n = n * 2;
        }
        let t = cache_new(n, TranspositionEntry::empty());
        let r = TT { t, n_entries: n };
        assert(slots_keyed(r@));
        r
    }

    /// Stores an entry in its key's slot, whatever the slot held.
    pub fn set(&mut self, a: TranspositionEntry)
        requires
            old(self).wf(),
        ensures
            final(self).wf(),
            final(self)@ == set_spec(old(self)@, a),
    {
        proof { lemma_slot_in_range(a.key, self@.len() as int); }
        cache_add(&mut self.t, a.key, a);
        assert(self@.len() == old(self)@.len());
        assert(slots_keyed(self@));
    }

    /// The entry stored under `hash`, or an unused entry.
    pub fn get(&self, hash: u64) -> (r: TranspositionEntry)
        requires
            self.wf(),
        ensures
            r == get_spec(self@, hash),
            r == TranspositionEntry::spec_empty() || r.key == hash,
    {
        proof { lemma_slot_in_range(hash, self@.len() as int); }
        match cache_get(&self.t, hash) {
            Some(e) => e,
            None => TranspositionEntry::empty(),
        }
    }
}

} // verus!
