//! A bounded in-memory buffer of the most recent query logs.
use super::types::QueryLogEntry;
use std::collections::VecDeque;
use vstd::prelude::*;

verus! {

/// The buffer after logging `e`: the oldest entry is dropped first when the
/// buffer already holds `capacity` entries (or more).
pub open spec fn ring_push<E>(b: Seq<E>, capacity: nat, e: E) -> Seq<E> {
    if b.len() >= capacity && b.len() > 0 {
        b.drop_first().push(e)
    } else {
        b.push(e)
    }
}

/// The buffer after logging `es` one after another into `start`.
pub open spec fn ring_after<E>(start: Seq<E>, capacity: nat, es: Seq<E>) -> Seq<E>
    decreases es.len(),
{
    if es.len() == 0 {
        start
    } else {
        ring_push(ring_after(start, capacity, es.drop_last()), capacity, es.last())
    }
}

/// Keeps the most recent query logs, oldest first.
pub struct MemoryLogSink {
    buffer: VecDeque<QueryLogEntry>,
    capacity: usize,
}

impl MemoryLogSink {
    /// The entries held, oldest first.
    pub closed spec fn entries(&self) -> Seq<QueryLogEntry> {
        self.buffer@
    }

    pub closed spec fn capacity_spec(&self) -> nat {
        self.capacity as nat
    }

    /// An empty buffer that keeps up to `capacity` entries.
    pub fn new(capacity: usize) -> (s: Self)
        ensures
            s.entries() == Seq::<QueryLogEntry>::empty(),
            s.capacity_spec() == capacity,
    {
        MemoryLogSink { buffer: VecDeque::with_capacity(capacity), capacity }
    }

    /// Appends a copy of `entry`, dropping the oldest entry when full.
    pub fn log(&mut self, entry: &QueryLogEntry)
        ensures
            final(self).entries() == ring_push(old(self).entries(), old(self).capacity_spec(), *entry),
            final(self).capacity_spec() == old(self).capacity_spec(),
    {
        if self.buffer.len() >= self.capacity {
            self.buffer.pop_front();
        }
        self.buffer.push_back(entry.clone());
    }

    /// The entries held, oldest first.
    pub fn get_recent(&self) -> (r: Vec<QueryLogEntry>)
        ensures
            r@ == self.entries(),
    {
        let mut out: Vec<QueryLogEntry> = Vec::new();
        let n = self.buffer.len();
        for i in 0..n
            invariant
                n == self.buffer@.len(),
                out@ == self.buffer@.subrange(0, i as int),
        {
            out.push(self.buffer[i].clone());
            proof {
                assert(self.buffer@.subrange(0, i + 1) =~= self.buffer@.subrange(0, i as int).push(
                    self.buffer@[i as int],
                ));
            }
        }
        proof {
            assert(self.buffer@.subrange(0, n as int) =~= self.buffer@);
        }
        out
    }

    /// Up to `limit` entries, newest first.
    pub fn newest_first(&self, limit: usize) -> (r: Vec<QueryLogEntry>)
        ensures
            r@ == self.entries().reverse().take(
                if limit < self.entries().len() { limit as int } else { self.entries().len() as int },
            ),
    {
        let n = self.buffer.len();
        let m = if limit < n { limit } else { n };
        let mut out: Vec<QueryLogEntry> = Vec::new();
        for i in 0..m
            invariant
                n == self.buffer@.len(),
                m <= n,
                out@ == self.buffer@.reverse().take(i as int),
        {
            out.push(self.buffer[n - 1 - i].clone());
            proof {
                assert(self.buffer@.reverse().take(i + 1) =~= self.buffer@.reverse().take(
                    i as int,
                ).push(self.buffer@[n - 1 - i]));
            }
        }
        out
    }
}

/// Logging into a buffer of capacity at least one keeps exactly the last
/// `capacity` entries logged (all of them while fewer were logged), oldest first.
pub proof fn ring_keeps_latest<E>(capacity: nat, es: Seq<E>)
    requires
        capacity >= 1,
    ensures
        ring_after(Seq::empty(), capacity, es) == es.subrange(
            if es.len() > capacity { es.len() - capacity } else { 0 },
            es.len() as int,
        ),
    decreases es.len(),
{
    if es.len() > 0 {
        let prev = es.drop_last();
        ring_keeps_latest(capacity, prev);
        let b = ring_after(Seq::empty(), capacity, prev);
        if prev.len() >= capacity {
            assert(b.drop_first().push(es.last()) =~= es.subrange(es.len() - capacity, es.len() as int));
        } else {
            assert(b.push(es.last()) =~= es.subrange(0, es.len() as int));
        }
    } else {
        assert(es.subrange(0, 0) =~= es);
    }
}

/// The buffer never holds more than its capacity, or one entry when the
/// capacity is zero.
pub proof fn ring_bounded<E>(start: Seq<E>, capacity: nat, es: Seq<E>)
    requires
        start.len() <= if capacity > 0 { capacity } else { 1 },
    ensures
        ring_after(start, capacity, es).len() <= if capacity > 0 { capacity } else { 1 },
    decreases es.len(),
{
    if es.len() > 0 {
        ring_bounded(start, capacity, es.drop_last());
    }
}

} // verus!
