//! Bookkeeping of requests that wait for a reply: a sequence counter and
//! the set of sequence numbers still waiting, kept in a concurrent map
//! (`dashmap::DashMap`) keyed by sequence number.
//!
//! A request is registered under the counter's current number, and the
//! counter moves on. A reply, a failure or the end of the connection
//! releases a request; releasing every request hands back their numbers
//! so that each caller can be told.

use vstd::prelude::*;
use std::time::Duration;
use dashmap::DashMap;

verus! {

/// The duration that `std::time::Duration::from_secs` builds for a number
/// of whole seconds.
pub uninterp spec fn duration_of_secs(secs: u64) -> Duration;

/// Calls `std::time::Duration::from_secs`. Trusted: the duration it builds
/// depends on the number of seconds alone.
#[verifier::external_body]
pub(crate) fn duration_from_secs(secs: u64) -> (d: Duration)
    ensures
        d == duration_of_secs(secs),
{
    Duration::from_secs(secs)
}

/// The sequence number after `seq`; the counter wraps around.
pub open spec fn seq_after(seq: u64) -> u64 {
    if seq == u64::MAX {
        0
    } else {
        (seq + 1) as u64
    }
}

/// The abstract state of the bookkeeping.
#[verifier::ext_equal]
pub struct CallsView {
    /// Sequence numbers of the requests that wait for a reply.
    pub pending: Set<u64>,
    /// The sequence number the next request receives.
    pub next_seq: u64,
}

impl CallsView {
    /// With request `next_seq` registered and the counter advanced.
    pub open spec fn registered(self) -> CallsView {
        CallsView { pending: self.pending.insert(self.next_seq), next_seq: seq_after(self.next_seq) }
    }

    /// With request `seq` no longer waiting.
    pub open spec fn released(self, seq: u64) -> CallsView {
        CallsView { pending: self.pending.remove(seq), ..self }
    }
}

// =============================================================================
// The concurrent map of waiting requests
// =============================================================================

#[verifier::external_type_specification]
#[verifier::external_body]
#[verifier::reject_recursive_types(K)]
#[verifier::reject_recursive_types(V)]
#[verifier::reject_recursive_types(S)]
pub struct ExDashMap<K, V, S>(DashMap<K, V, S>);

/// The keys a map of waiting requests holds.
pub uninterp spec fn pending_keys(m: DashMap<u64, ()>) -> Set<u64>;

/// Calls `DashMap::new`. Trusted: a new map holds no entry.
#[verifier::external_body]
fn map_new() -> (m: DashMap<u64, ()>)
    ensures
        pending_keys(m) == Set::<u64>::empty(),
{
    DashMap::new()
}

/// Calls `DashMap::insert`. Trusted: afterwards the map holds the key, and
/// the other keys are unchanged; the previous value comes back exactly when
/// the key was there.
#[verifier::external_body]
fn map_insert(m: &mut DashMap<u64, ()>, seq: u64) -> (prev: Option<()>)
    ensures
        pending_keys(*final(m)) == pending_keys(*old(m)).insert(seq),
        prev is Some <==> pending_keys(*old(m)).contains(seq),
{
    m.insert(seq, ())
}

/// Calls `DashMap::remove`. Trusted: afterwards the map no longer holds the
/// key, and the other keys are unchanged; the entry comes back exactly when
/// the key was there.
#[verifier::external_body]
fn map_remove(m: &mut DashMap<u64, ()>, seq: u64) -> (r: Option<(u64, ())>)
    ensures
        pending_keys(*final(m)) == pending_keys(*old(m)).remove(seq),
        r is Some <==> pending_keys(*old(m)).contains(seq),
        r matches Some((k, _)) ==> k == seq,
{
    m.remove(&seq)
}

/// Calls `DashMap::contains_key`. Trusted: it tells whether the map holds
/// the key.
#[verifier::external_body]
fn map_contains(m: &DashMap<u64, ()>, seq: u64) -> (b: bool)
    ensures
        b == pending_keys(*m).contains(seq),
{
    m.contains_key(&seq)
}

/// Calls `DashMap::len`. Trusted: `len` counts the keys the map holds.
#[verifier::external_body]
fn map_len(m: &DashMap<u64, ()>) -> (n: usize)
    ensures
        n == pending_keys(*m).len(),
{
    m.len()
}

/// Walks the map with `DashMap::iter` and collects the keys. Trusted: the
/// walk visits every entry once, so every key comes out exactly once (in
/// an order that the map does not promise).
#[verifier::external_body]
fn map_keys(m: &DashMap<u64, ()>) -> (keys: Vec<u64>)
    ensures
        keys@.no_duplicates(),
        keys@.to_set() == pending_keys(*m),
{
    m.iter().map(|e| *e.key()).collect()
}

// =============================================================================
// Pending calls
// =============================================================================

/// Requests that wait for a reply, and the counter that numbers them.
pub struct PendingCalls {
    pending: DashMap<u64, ()>,
    next_seq: u64,
}

impl View for PendingCalls {
    type V = CallsView;

    closed spec fn view(&self) -> CallsView {
        CallsView { pending: pending_keys(self.pending), next_seq: self.next_seq }
    }
}

impl PendingCalls {
    /// The bookkeeping's internal consistency: finitely many requests wait.
    pub closed spec fn wf(&self) -> bool {
        pending_keys(self.pending).finite()
    }

    /// No request waiting; the first request gets sequence number 1.
    pub fn new() -> (c: Self)
        ensures
            c.wf(),
            c@ == (CallsView { pending: Set::empty(), next_seq: 1 }),
    {
        PendingCalls { pending: map_new(), next_seq: 1 }
    }

    /// The number of requests that wait for a reply.
    pub fn len(&self) -> (n: usize)
        requires
            self.wf(),
        ensures
            n == self@.pending.len(),
            self@.pending.finite(),
    {
        map_len(&self.pending)
    }

    /// Whether request `seq` waits for a reply.
    pub fn contains(&self, seq: u64) -> (b: bool)
        ensures
            b == self@.pending.contains(seq),
    {
        map_contains(&self.pending, seq)
    }

    /// Removes request `seq` from the waiting set; tells whether it was
    /// waiting.
    pub fn release(&mut self, seq: u64) -> (found: bool)
        requires
            old(self).wf(),
        ensures
            final(self).wf(),
            found == old(self)@.pending.contains(seq),
            final(self)@ == old(self)@.released(seq),
    {
        match map_remove(&mut self.pending, seq) {
            Some(_) => true,
            None => false,
        }
    }

    /// Releases every waiting request and hands back their sequence
    /// numbers, each once.
    pub fn drain(&mut self) -> (drained: Vec<u64>)
        requires
            old(self).wf(),
        ensures
            final(self).wf(),
            drained@.no_duplicates(),
            drained@.to_set() == old(self)@.pending,
            final(self)@ == (CallsView { pending: Set::empty(), ..old(self)@ }),
    {
        let keys = map_keys(&self.pending);
        let ghost all = pending_keys(self.pending);
        let mut i: usize = 0;
        while i < keys.len()
            invariant
                keys@.no_duplicates(),
                keys@.to_set() == all,
                i <= keys@.len(),
                self.next_seq == old(self).next_seq,
                pending_keys(self.pending) == all.difference(keys@.take(i as int).to_set()),
            decreases keys@.len() - i,
        {
            let ghost before = pending_keys(self.pending);
            map_remove(&mut self.pending, keys[i]);
            proof {
                assert(keys@.take(i + 1) =~= keys@.take(i as int).push(keys@[i as int]));
                keys@.take(i as int).lemma_push_to_set_commute(keys@[i as int]);
                assert(pending_keys(self.pending) =~= all.difference(keys@.take(i + 1).to_set()));
            }
            i = i + 1;
        }
        proof {
            assert(keys@.take(i as int) =~= keys@);
            assert(pending_keys(self.pending) =~= Set::<u64>::empty());
        }
        keys
    }

    /// Registers a request: it receives the next sequence number and waits
    /// for its reply; the counter moves on, wrapping around after the
    /// largest number.
    pub fn register(&mut self) -> (seq: u64)
        requires
            old(self).wf(),
        ensures
            final(self).wf(),
            seq == old(self)@.next_seq,
            final(self)@ == old(self)@.registered(),
    {
        let seq = self.next_seq;
        self.next_seq = if seq == u64::MAX { 0 } else { seq + 1 };
        map_insert(&mut self.pending, seq);
        seq
    }
}

} // verus!
