use vstd::prelude::*;

use crate::types::Outpoint;

verus! {

/// How long an outpoint stays marked in flight, in milliseconds.
pub const PENDING_EXPIRY_MS: u64 = 3_600_000;

/// An entry marked at `marked_at` has expired at time `now` once more than
/// `PENDING_EXPIRY_MS` milliseconds lie between the two.
pub open spec fn is_expired(marked_at: u64, now: u64) -> bool {
    now as int - marked_at as int > PENDING_EXPIRY_MS as int
}

/// Whether `k` is among the first `n` items of `s`.
pub open spec fn in_prefix(s: Seq<Outpoint>, n: int, k: Outpoint) -> bool {
    exists|j: int| 0 <= j < n && s[j] == k
}

/// What a sweep at time `now` leaves of the map `m`: the entries that have
/// not expired, with their timestamps unchanged.
pub open spec fn retained(m: Map<Outpoint, u64>, now: u64) -> Map<Outpoint, u64> {
    Map::new(|k: Outpoint| m.contains_key(k) && !is_expired(m[k], now), |k: Outpoint| m[k])
}

/// The outpoints that are in flight, each with the time (in milliseconds) at
/// which it was last marked. Each outpoint appears at most once.
pub struct PendingMap {
    entries: Vec<(Outpoint, u64)>,
    model: Ghost<Map<Outpoint, u64>>,
}

impl View for PendingMap {
    type V = Map<Outpoint, u64>;

    closed spec fn view(&self) -> Map<Outpoint, u64> {
        self.model@
    }
}

impl PendingMap {
    spec fn keys(&self) -> Seq<Outpoint> {
        self.entries@.map_values(|e: (Outpoint, u64)| e.0)
    }

    /// The entries and the map they stand for agree, and no outpoint is
    /// listed twice.
    pub closed spec fn wf(&self) -> bool {
        &&& forall|i: int|
            0 <= i < self.entries@.len() ==> #[trigger] self.model@.contains_key(self.entries@[i].0)
                && self.model@[self.entries@[i].0] == self.entries@[i].1
        &&& forall|k: Outpoint|
            #[trigger] self.model@.contains_key(k) ==> exists|i: int|
                0 <= i < self.entries@.len() && #[trigger] self.entries@[i].0 == k
        &&& forall|i: int, j: int|
            0 <= i < self.entries@.len() && 0 <= j < self.entries@.len() && i != j
                ==> #[trigger] self.entries@[i].0 != #[trigger] self.entries@[j].0
    }

    /// An empty tracker.
    pub fn new() -> (r: PendingMap)
        ensures
            r.wf(),
            r@ == Map::<Outpoint, u64>::empty(),
    {
        PendingMap { entries: Vec::new(), model: Ghost(Map::empty()) }
    }

    proof fn lemma_len(&self)
        requires
            self.wf(),
        ensures
            self@.dom().finite(),
            self@.dom().len() == self.entries@.len(),
    {
        let keys = self.keys();
        assert(keys.no_duplicates());
        assert(self@.dom() =~= keys.to_set()) by {
            assert forall|k: Outpoint| self@.dom().contains(k) implies keys.to_set().contains(k) by {
                let i = choose|i: int| 0 <= i < self.entries@.len() && #[trigger] self.entries@[i].0 == k;
                assert(keys[i] == k);
            }
            assert forall|k: Outpoint| keys.to_set().contains(k) implies self@.dom().contains(k) by {
                let i = choose|i: int| 0 <= i < keys.len() && keys[i] == k;
                assert(self.entries@[i].0 == k);
            }
        }
        keys.unique_seq_to_set();
    }

    /// The number of outpoints in flight.
    pub fn len(&self) -> (r: usize)
        requires
            self.wf(),
        ensures
            r == self@.dom().len(),
    {
        proof {
            self.lemma_len();
        }
        self.entries.len()
    }

    /// Where `op` stands in the entries, if it is there.
    fn find(&self, op: &Outpoint) -> (r: Option<usize>)
        requires
            self.wf(),
        ensures
            match r {
                Some(i) => i < self.entries@.len() && self.entries@[i as int].0 == *op,
                None => !self@.contains_key(*op),
            },
    {
        let mut i: usize = 0;
        while i < self.entries.len()
            invariant
                self.wf(),
                i <= self.entries@.len(),
                forall|j: int| 0 <= j < i ==> self.entries@[j].0 != *op,
            decreases self.entries@.len() - i,
        {
            if self.entries[i].0 == *op {
                return Some(i);
            }
            i = i + 1;
        }
        None
    }

    /// Whether `op` is in flight.
    pub fn contains(&self, op: &Outpoint) -> (r: bool)
        requires
            self.wf(),
        ensures
            r == self@.contains_key(*op),
    {
        match self.find(op) {
            Some(_) => true,
            None => false,
        }
    }

    /// Marks `op` in flight at time `now`, overwriting an earlier mark.
    pub fn insert(&mut self, op: Outpoint, now: u64)
        requires
            old(self).wf(),
        ensures
            final(self).wf(),
            final(self)@ == old(self)@.insert(op, now),
    {
        let ghost m = self.model@.insert(op, now);
        let ghost mut w: int = 0;
        match self.find(&op) {
            Some(i) => {
                self.entries.set(i, (op, now));
                proof {
                    w = i as int;
                }
            },
            None => {
                proof {
                    w = self.entries@.len() as int;
                }
                self.entries.push((op, now));
            },
        }
        self.model = Ghost(m);
        assert(self.entries@[w].0 == op);
        assert forall|k: Outpoint| #[trigger] self.model@.contains_key(k) implies exists|i: int|
            0 <= i < self.entries@.len() && #[trigger] self.entries@[i].0 == k by {
            if k != op {
                let i = choose|i: int| 0 <= i < old(self).entries@.len() && #[trigger] old(self).entries@[i].0 == k;
                assert(self.entries@[i].0 == k);
            } else {
                assert(self.entries@[w].0 == k);
            }
        }
    }

    /// Marks every outpoint of `ops` in flight at time `now`.
    pub fn insert_all(&mut self, ops: &Vec<Outpoint>, now: u64)
        requires
            old(self).wf(),
        ensures
            final(self).wf(),
            forall|k: Outpoint|
                #[trigger] final(self)@.contains_key(k) == (old(self)@.contains_key(k) || ops@.contains(k)),
            forall|k: Outpoint|
                #[trigger] final(self)@.contains_key(k) ==> final(self)@[k] == if ops@.contains(k) {
                    now
                } else {
                    old(self)@[k]
                },
    {
        let mut i: usize = 0;
        while i < ops.len()
            invariant
                self.wf(),
                i <= ops@.len(),
                forall|k: Outpoint|
                    #[trigger] self@.contains_key(k) == (old(self)@.contains_key(k) || in_prefix(ops@, i as int, k)),
                forall|k: Outpoint|
                    #[trigger] self@.contains_key(k) ==> self@[k] == if in_prefix(ops@, i as int, k) {
                        now
                    } else {
                        old(self)@[k]
                    },
            decreases ops@.len() - i,
        {
            self.insert(ops[i], now);
            proof {
                assert forall|k: Outpoint| in_prefix(ops@, i + 1, k) == (in_prefix(ops@, i as int, k) || k == ops@[i as int]) by {
                    if k == ops@[i as int] {
                        assert(ops@[i as int] == k);
                    }
                }
            }
            i = i + 1;
        }

    }

    /// Removes every entry that has expired at time `now`; an entry exactly
    /// `PENDING_EXPIRY_MS` old stays.
    pub fn remove_expired(&mut self, now: u64)
        requires
            old(self).wf(),
        ensures
            final(self).wf(),
            final(self)@ == retained(old(self)@, now),
    {
        let ghost target = retained(self@, now);
        let ghost mut idx: Seq<int> = Seq::empty();
        let mut kept: Vec<(Outpoint, u64)> = Vec::new();
        let mut i: usize = 0;
        while i < self.entries.len()
            invariant
                self.wf(),
                i <= self.entries@.len(),
                idx.len() == kept@.len(),
                forall|j: int|
                    0 <= j < kept@.len() ==> 0 <= #[trigger] idx[j] < i && kept@[j] == self.entries@[idx[j]]
                        && !is_expired(kept@[j].1, now),
                forall|a: int, b: int| 0 <= a < b < idx.len() ==> #[trigger] idx[a] < #[trigger] idx[b],
                forall|p: int|
                    0 <= p < i && !is_expired(#[trigger] self.entries@[p].1, now) ==> exists|j: int|
                        0 <= j < idx.len() && #[trigger] idx[j] == p,
            decreases self.entries@.len() - i,
        {
            let e = self.entries[i];
            let ghost idx0 = idx;
            if !(now as u128 > e.1 as u128 + PENDING_EXPIRY_MS as u128) {
                kept.push(e);
                proof {
                    idx = idx.push(i as int);
                    assert(idx[idx.len() - 1] == i);
                }
            }
            proof {
                assert forall|p: int|
                    0 <= p < i + 1 && !is_expired(#[trigger] self.entries@[p].1, now) implies exists|j: int|
                        0 <= j < idx.len() && #[trigger] idx[j] == p by {
                    if p < i {
                        let j = choose|j: int| 0 <= j < idx0.len() && #[trigger] idx0[j] == p;
                        assert(idx[j] == p);
                    } else {
                        assert(idx[idx.len() - 1] == p);
                    }
                }
            }
            i = i + 1;
        }
        let ghost old_entries = self.entries@;
        let ghost old_model = self.model@;
        self.entries = kept;
        self.model = Ghost(target);
        proof {
            assert forall|j: int| 0 <= j < self.entries@.len() implies #[trigger] self.model@.contains_key(
                self.entries@[j].0,
            ) && self.model@[self.entries@[j].0] == self.entries@[j].1 by {
                assert(old_model.contains_key(old_entries[idx[j]].0));
            }
            assert forall|k: Outpoint| #[trigger] self.model@.contains_key(k) implies exists|j: int|
                0 <= j < self.entries@.len() && #[trigger] self.entries@[j].0 == k by {
                let p = choose|p: int| 0 <= p < old_entries.len() && #[trigger] old_entries[p].0 == k;
                assert(!is_expired(old_entries[p].1, now));
                let j = choose|j: int| 0 <= j < idx.len() && #[trigger] idx[j] == p;
                assert(self.entries@[j].0 == k);
            }
            assert forall|a: int, b: int|
                0 <= a < self.entries@.len() && 0 <= b < self.entries@.len() && a != b
                    implies #[trigger] self.entries@[a].0 != #[trigger] self.entries@[b].0 by {
                if a < b {
                    assert(idx[a] < idx[b]);
                } else {
                    assert(idx[b] < idx[a]);
                }
            }
            assert(self.model@ =~= target);
        }
    }
}

} // verus!

verus! {

/// An outpoint marked at time `t` is still pending `PENDING_EXPIRY_MS`
/// milliseconds later and is swept one millisecond after that.
pub proof fn lemma_expiry_boundary(m: Map<Outpoint, u64>, op: Outpoint, t: u64)
    requires
        t + PENDING_EXPIRY_MS + 1 <= u64::MAX,
    ensures
        retained(m.insert(op, t), (t + PENDING_EXPIRY_MS) as u64).contains_key(op),
        !retained(m.insert(op, t), (t + PENDING_EXPIRY_MS + 1) as u64).contains_key(op),
{
}

} // verus!

verus! {

/// The sweep run once per generation tick: removes the entries that have
/// expired at time `now`.
pub fn clean_old_pending_outpoints(pending: &mut PendingMap, now: u64)
    requires
        old(pending).wf(),
    ensures
        final(pending).wf(),
        final(pending)@ == retained(old(pending)@, now),
{
    pending.remove_expired(now);
}

} // verus!
