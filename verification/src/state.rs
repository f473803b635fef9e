//! Shared-state maps of the defense: fixed-capacity tables keyed by 32-bit
//! IPv4 address, visible to every inspection program.
//!
//! Each table is a capacity-bounded map from `u32` to `u32`. Inserting into a
//! full table is a silent no-op; that bound is part of the contract. On top of
//! the raw tables sit the helpers the classifiers use: whitelist and blocklist
//! membership, terminal blocking, the per-address retransmission counter and
//! the pending-lookup counter.

use vstd::prelude::*;
use std::collections::HashMap;

verus! {

broadcast use vstd::std_specs::hash::group_hash_axioms;

/// Capacity of the address-keyed tables.
pub const MAP_CAPACITY: usize = 1024;

/// Upsert into a capacity-bounded map: an existing key is always updated, a
/// new key is added only while the map is below its capacity.
pub open spec fn bounded_upsert(m: Map<u32, u32>, cap: nat, k: u32, v: u32) -> Map<u32, u32> {
    if m.contains_key(k) || m.len() < cap {
        m.insert(k, v)
    } else {
        m
    }
}

/// One retransmission-counter tick: wraps around at the top, as the counters
/// are only ever compared for order, never for absolute value.
pub open spec fn wrap_inc(v: u32) -> u32 {
    if v == u32::MAX {
        0
    } else {
        (v + 1) as u32
    }
}

/// Value an existing pending-lookup entry takes: saturating increment when
/// arming, saturating decrement when draining.
pub open spec fn lookups_count(v: u32, add: bool) -> u32 {
    if add {
        if v == u32::MAX {
            v
        } else {
            (v + 1) as u32
        }
    } else {
        if v > 0 {
            (v - 1) as u32
        } else {
            v
        }
    }
}

/// Map transform of one retransmission-counter update.
pub open spec fn rtx_step(m: Map<u32, u32>, cap: nat, k: u32) -> Map<u32, u32> {
    if m.contains_key(k) {
        m.insert(k, wrap_inc(m[k]))
    } else {
        bounded_upsert(m, cap, k, 1)
    }
}

/// Count returned by one retransmission-counter update; `None` exactly when
/// the table was full and the address unseen.
pub open spec fn rtx_step_count(m: Map<u32, u32>, cap: nat, k: u32) -> Option<u32> {
    if m.contains_key(k) {
        Some(wrap_inc(m[k]))
    } else if m.len() < cap {
        Some(1u32)
    } else {
        None
    }
}

/// Map transform of one pending-lookup update. An absent key is seeded with 1
/// whatever the direction, matching the table's get-or-create behaviour.
pub open spec fn lookups_step(m: Map<u32, u32>, cap: nat, k: u32, add: bool) -> Map<u32, u32> {
    if m.contains_key(k) {
        m.insert(k, lookups_count(m[k], add))
    } else {
        bounded_upsert(m, cap, k, 1)
    }
}

/// Count returned by one pending-lookup update; `None` exactly when the table
/// was full and the address unseen.
pub open spec fn lookups_step_count(m: Map<u32, u32>, cap: nat, k: u32, add: bool) -> Option<
    u32,
> {
    if m.contains_key(k) {
        Some(lookups_count(m[k], add))
    } else if m.len() < cap {
        Some(1u32)
    } else {
        None
    }
}

/// Invariant of the pending-lookup table: an entry that reaches zero is
/// removed by its caller, so a stored count is always at least 1.
pub open spec fn lookups_wf(m: Map<u32, u32>) -> bool {
    forall|k: u32| #[trigger] m.contains_key(k) ==> m[k] >= 1
}

/// A fixed-capacity map from 32-bit address (or process id) to 32-bit value.
pub struct StateMap {
    table: HashMap<u32, u32>,
    capacity: usize,
}

impl StateMap {
    /// Abstract contents of the table.
    pub closed spec fn view(&self) -> Map<u32, u32> {
        self.table@
    }

    /// Capacity bound the table was created with.
    pub closed spec fn cap(&self) -> nat {
        self.capacity as nat
    }

    /// The table never holds more entries than its capacity.
    pub closed spec fn wf(&self) -> bool {
        &&& self.table@.dom().finite()
        &&& self.table@.len() <= self.capacity
    }

    /// An empty table with the given capacity bound.
    pub fn new(capacity: usize) -> (r: StateMap)
        ensures
            r@ == Map::<u32, u32>::empty(),
            r.cap() == capacity,
            r.wf(),
    {
        StateMap { table: HashMap::new(), capacity }
    }

    /// Current value stored under `key`, if any.
    pub fn get(&self, key: u32) -> (r: Option<u32>)
        ensures
            r == (if self@.contains_key(key) {
                Some(self@[key])
            } else {
                None::<u32>
            }),
    {
        match self.table.get(&key) {
            Some(v) => Some(*v),
            None => None,
        }
    }

    /// Capacity-bounded upsert. Returns whether the entry was stored; a full
    /// table silently refuses a new key.
    pub fn insert(&mut self, key: u32, value: u32) -> (ok: bool)
        requires
            old(self).wf(),
        ensures
            final(self).wf(),
            final(self).cap() == old(self).cap(),
            final(self)@ == bounded_upsert(old(self)@, old(self).cap(), key, value),
            ok == (old(self)@.contains_key(key) || old(self)@.len() < old(self).cap()),
    {
        if self.table.contains_key(&key) {
            self.table.insert(key, value);
            true
        } else if self.table.len() < self.capacity {
            self.table.insert(key, value);
            true
        } else {
            false
        }
    }

    /// Removes the entry under `key`, if present.
    pub fn remove(&mut self, key: u32)
        requires
            old(self).wf(),
        ensures
            final(self).wf(),
            final(self).cap() == old(self).cap(),
            final(self)@ == old(self)@.remove(key),
    {
        self.table.remove(&key);
        proof {
            if old(self)@.contains_key(key) {
                assert(self.table@.len() <= old(self).table@.len());
            } else {
                assert(old(self)@.remove(key) =~= old(self)@);
            }
        }
    }

    /// Number of entries currently stored.
    pub fn len(&self) -> (r: usize)
        ensures
            r == self@.len(),
    {
        self.table.len()
    }
}

/// The shared state all three inspection programs read and write: the
/// per-address retransmission counters, the whitelist, the blocklist and the
/// pending-lookup counters.
pub struct TrfState {
    pub rtx: StateMap,
    pub whlist: StateMap,
    pub blocklist: StateMap,
    pub lookups: StateMap,
}

impl TrfState {
    /// Every table is within its capacity and no pending-lookup entry is zero.
    pub open spec fn wf(&self) -> bool {
        &&& self.rtx.wf()
        &&& self.whlist.wf()
        &&& self.blocklist.wf()
        &&& self.lookups.wf()
        &&& lookups_wf(self.lookups@)
    }

    /// A fresh load: every table empty, as the maps are re-created whenever
    /// the programs are attached anew.
    pub fn new() -> (r: TrfState)
        ensures
            r.wf(),
            r.rtx@ == Map::<u32, u32>::empty(),
            r.whlist@ == Map::<u32, u32>::empty(),
            r.blocklist@ == Map::<u32, u32>::empty(),
            r.lookups@ == Map::<u32, u32>::empty(),
            r.rtx.cap() == MAP_CAPACITY,
            r.whlist.cap() == MAP_CAPACITY,
            r.blocklist.cap() == MAP_CAPACITY,
            r.lookups.cap() == MAP_CAPACITY,
    {
        TrfState {
            rtx: StateMap::new(MAP_CAPACITY),
            whlist: StateMap::new(MAP_CAPACITY),
            blocklist: StateMap::new(MAP_CAPACITY),
            lookups: StateMap::new(MAP_CAPACITY),
        }
    }

    /// Whitelist membership: such an address passes unconditionally.
    pub fn is_verified(&self, key: u32) -> (r: bool)
        ensures
            r == self.whlist@.contains_key(key),
    {
        self.whlist.get(key).is_some()
    }

    /// Blocklist membership: such an address is dropped unless whitelisted.
    pub fn is_blocked(&self, key: u32) -> (r: bool)
        ensures
            r == self.blocklist@.contains_key(key),
    {
        self.blocklist.get(key).is_some()
    }

    /// Adds `key` to the blocklist. Membership is terminal for a run; a full
    /// table silently refuses a new address (the rule is best-effort).
    pub fn block_addr(&mut self, key: u32)
        requires
            old(self).wf(),
        ensures
            final(self).wf(),
            final(self).blocklist@ == bounded_upsert(
                old(self).blocklist@,
                old(self).blocklist.cap(),
                key,
                1,
            ),
            final(self).blocklist.cap() == old(self).blocklist.cap(),
            final(self).rtx == old(self).rtx,
            final(self).whlist == old(self).whlist,
            final(self).lookups == old(self).lookups,
    {
        self.blocklist.insert(key, 1);
    }

    /// Bumps the retransmission counter of `key` and returns the fresh
    /// post-increment count, or `None` when the table is full and the address
    /// unseen. The count wraps around at the top.
    #[allow(non_snake_case)]
    pub fn update_RTX(&mut self, key: u32) -> (r: Option<u32>)
        requires
            old(self).wf(),
        ensures
            final(self).wf(),
            final(self).rtx@ == rtx_step(old(self).rtx@, old(self).rtx.cap(), key),
            r == rtx_step_count(old(self).rtx@, old(self).rtx.cap(), key),
            final(self).rtx.cap() == old(self).rtx.cap(),
            final(self).whlist == old(self).whlist,
            final(self).blocklist == old(self).blocklist,
            final(self).lookups == old(self).lookups,
    {
        match self.rtx.get(key) {
            Some(count) => {
                let next: u32 = if count == u32::MAX {
                    0
                } else {
                    count + 1
                };
                self.rtx.insert(key, next);
                Some(next)
            },
            None => {
                if self.rtx.insert(key, 1) {
                    Some(1)
                } else {
                    None
                }
            },
        }
    }

    /// Arms (`add == true`) or drains (`add == false`) the pending-lookup
    /// counter of `key`, returning the new count; an absent key is seeded
    /// with 1. On a count of zero the caller removes the entry.
    #[allow(non_snake_case)]
    pub fn update_LOOKUPS(&mut self, key: u32, add: bool) -> (r: Option<u32>)
        requires
            old(self).lookups.wf(),
        ensures
            final(self).lookups@ == lookups_step(
                old(self).lookups@,
                old(self).lookups.cap(),
                key,
                add,
            ),
            r == lookups_step_count(old(self).lookups@, old(self).lookups.cap(), key, add),
            final(self).lookups.cap() == old(self).lookups.cap(),
            final(self).lookups.wf(),
            final(self).rtx == old(self).rtx,
            final(self).whlist == old(self).whlist,
            final(self).blocklist == old(self).blocklist,
    {
        match self.lookups.get(key) {
            Some(count) => {
                let next: u32 = if add {
                    if count == u32::MAX {
                        count
                    } else {
                        count + 1
                    }
                } else {
                    if count > 0 {
                        count - 1
                    } else {
                        count
                    }
                };
                self.lookups.insert(key, next);
                Some(next)
            },
            None => {
                if self.lookups.insert(key, 1) {
                    Some(1)
                } else {
                    None
                }
            },
        }
    }

    /// Removes the pending-lookup entry of `key`.
    pub fn remove_lookup(&mut self, key: u32)
        requires
            old(self).lookups.wf(),
        ensures
            final(self).lookups.wf(),
            final(self).lookups@ == old(self).lookups@.remove(key),
            final(self).lookups.cap() == old(self).lookups.cap(),
            final(self).rtx == old(self).rtx,
            final(self).whlist == old(self).whlist,
            final(self).blocklist == old(self).blocklist,
    {
        self.lookups.remove(key);
    }

    /// Seeds the whitelist with `key`; done once by the loader at attach.
    pub fn whitelist_addr(&mut self, key: u32)
        requires
            old(self).wf(),
        ensures
            final(self).wf(),
            final(self).whlist@ == bounded_upsert(
                old(self).whlist@,
                old(self).whlist.cap(),
                key,
                1,
            ),
            final(self).whlist.cap() == old(self).whlist.cap(),
            final(self).rtx == old(self).rtx,
            final(self).blocklist == old(self).blocklist,
            final(self).lookups == old(self).lookups,
    {
        self.whlist.insert(key, 1);
    }
}

/// Draining one pending lookup of `k` and removing the entry if the count
/// reached zero, as the ingress filter does on a correlated callback.
pub open spec fn lookups_drain(m: Map<u32, u32>, cap: nat, k: u32) -> Map<u32, u32> {
    let m1 = lookups_step(m, cap, k, false);
    if lookups_step_count(m, cap, k, false) == Some(0u32) {
        m1.remove(k)
    } else {
        m1
    }
}

/// Draining with removal-on-zero keeps every stored count at least 1.
pub proof fn lemma_lookups_drain_preserves_wf(m: Map<u32, u32>, cap: nat, k: u32)
    requires
        lookups_wf(m),
    ensures
        lookups_wf(lookups_drain(m, cap, k)),
{
    let m1 = lookups_drain(m, cap, k);
    assert forall|j: u32| #[trigger] m1.contains_key(j) implies m1[j] >= 1 by {
        if j != k {
            assert(m.contains_key(j));
        }
    }
}

/// Arming a pending lookup never stores a zero count: an existing entry is
/// at least 1 and only grows, a fresh entry is seeded at 1.
pub proof fn lemma_lookups_arm_preserves_wf(m: Map<u32, u32>, cap: nat, k: u32)
    requires
        lookups_wf(m),
    ensures
        lookups_wf(lookups_step(m, cap, k, true)),
{
    let m1 = lookups_step(m, cap, k, true);
    assert forall|j: u32| #[trigger] m1.contains_key(j) implies m1[j] >= 1 by {
        if j != k {
            assert(m.contains_key(j));
        }
    }
}

/// Arming a pending lookup for an address and then draining it returns the
/// table to its pre-call contents if and only if the address already had an
/// entry. (A fresh entry is seeded at 1 and drained to 0, not removed, so the
/// two calls alone do not restore an absent entry.)
pub proof fn lemma_update_lookups_round_trip(m: Map<u32, u32>, cap: nat, k: u32)
    requires
        m.dom().finite(),
        m.len() < cap,
        m.contains_key(k) ==> m[k] < u32::MAX,
    ensures
        (lookups_step(lookups_step(m, cap, k, true), cap, k, false) == m) <==> m.contains_key(k),
{
    let m1 = lookups_step(m, cap, k, true);
    let m2 = lookups_step(m1, cap, k, false);
    if m.contains_key(k) {
        assert(m1 == m.insert(k, (m[k] + 1) as u32));
        assert(m2 =~= m);
    } else {
        assert(m1 == m.insert(k, 1u32));
        assert(m2 == m1.insert(k, 0u32));
        assert(m2.contains_key(k) && m2[k] == 0);
        assert(m2 != m) by {
            if m2 == m {
                assert(m.contains_key(k));
            }
        }
    }
}

} // verus!
