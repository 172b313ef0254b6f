//! Fixed-capacity rolling history of metric samples.
//!
//! A `HistoryBuffer` keeps the most recent samples of one metric in push
//! order. Once it is full, each push evicts exactly the oldest sample first,
//! so the buffer always holds the last `capacity` pushed values.

use std::collections::VecDeque;
use vstd::prelude::*;

verus! {

/// One push into a ring of the given capacity: append the value, evicting
/// the oldest entry first when the ring is full.
pub open spec fn ring_push(s: Seq<u64>, cap: nat, value: u64) -> Seq<u64> {
    if s.len() < cap {
        s.push(value)
    } else {
        s.drop_first().push(value)
    }
}

/// A whole sequence of pushes into a ring, oldest first.
pub open spec fn ring_push_all(s: Seq<u64>, cap: nat, values: Seq<u64>) -> Seq<u64>
    decreases values.len(),
{
    if values.len() == 0 {
        s
    } else {
        ring_push_all(ring_push(s, cap, values[0]), cap, values.drop_first())
    }
}

/// The last `n` elements of a sequence.
pub open spec fn last_n(s: Seq<u64>, n: nat) -> Seq<u64>
    recommends
        n <= s.len(),
{
    s.subrange(s.len() - n, s.len() as int)
}

/// The most recent `min(n, len)` elements of a sequence, newest first.
pub open spec fn newest_first(s: Seq<u64>, n: nat) -> Seq<u64> {
    let m = if n <= s.len() {
        n
    } else {
        s.len()
    };
    Seq::new(m, |i: int| s[s.len() - 1 - i])
}

/// A bounded ring of samples: at most `capacity` values, in push order.
pub struct HistoryBuffer {
    items: VecDeque<u64>,
    capacity: usize,
}

impl View for HistoryBuffer {
    type V = Seq<u64>;

    closed spec fn view(&self) -> Seq<u64> {
        self.items@
    }
}

impl HistoryBuffer {
    /// The fixed capacity chosen at construction.
    pub closed spec fn cap(&self) -> nat {
        self.capacity as nat
    }

    /// The buffer never holds more samples than its capacity.
    pub open spec fn wf(&self) -> bool {
        self@.len() <= self.cap() && self.cap() >= 1
    }

    /// An empty history that will retain the last `capacity` samples.
    pub fn new(capacity: usize) -> (r: HistoryBuffer)
        requires
            capacity >= 1,
        ensures
            r.wf(),
            r@ == Seq::<u64>::empty(),
            r.cap() == capacity,
    {
        HistoryBuffer { items: VecDeque::new(), capacity }
    }

    /// Number of samples currently held.
    pub fn len(&self) -> (r: usize)
        ensures
            r == self@.len(),
    {
        self.items.len()
    }

    /// Whether no sample has been recorded yet.
    pub fn is_empty(&self) -> (r: bool)
        ensures
            r == (self@.len() == 0),
    {
        self.items.len() == 0
    }

    /// Record one sample, evicting the oldest first when the buffer is
    /// full; constant-time either way.
    pub fn push(&mut self, value: u64)
        requires
            old(self).wf(),
        ensures
            final(self).wf(),
            final(self).cap() == old(self).cap(),
            final(self)@ == ring_push(old(self)@, old(self).cap(), value),
    {
        if self.items.len() >= self.capacity {
            let _evicted = self.items.pop_front();
            proof {
                assert(self.items@ =~= old(self)@.drop_first());
            }
        }
        self.items.push_back(value);
    }

    /// Copy out the most recent `min(n, len)` samples, newest first. The
    /// buffer itself is not changed (it is only read).
    pub fn snapshot(&self, n: usize) -> (r: Vec<u64>)
        requires
            self.wf(),
        ensures
            r@ == newest_first(self@, n as nat),
    {
        let len = self.items.len();
        let count = if n <= len {
            n
        } else {
            len
        };
        let mut out: Vec<u64> = Vec::new();
        let mut i: usize = 0;
        while i < count
            invariant
                i <= count,
                count <= len,
                len == self@.len(),
                self.wf(),
                out@ =~= newest_first(self@, n as nat).subrange(0, i as int),
                count == (if n <= self@.len() {
                    n as nat
                } else {
                    self@.len()
                }),
            decreases count - i,
        {
            out.push(self.items[len - 1 - i]);
            proof {
                assert(out@ =~= newest_first(self@, n as nat).subrange(0, i + 1 as int));
            }
            i = i + 1;
        }
        proof {
            assert(out@ =~= newest_first(self@, n as nat));
        }
        out
    }
}

/// Pushing a sequence of values into a ring that holds no more than its
/// capacity leaves the last `min(cap, held + pushed)` of the combined
/// sequence, in order.
proof fn lemma_ring_push_all_general(s: Seq<u64>, cap: nat, values: Seq<u64>)
    requires
        cap >= 1,
        s.len() <= cap,
    ensures
        ring_push_all(s, cap, values) =~= (if s.len() + values.len() <= cap {
            s + values
        } else {
            last_n(s + values, cap)
        }),
    decreases values.len(),
{
    if values.len() == 0 {
        assert(s + values =~= s);
    } else {
        let v = values[0];
        let s2 = ring_push(s, cap, v);
        lemma_ring_push_all_general(s2, cap, values.drop_first());
        assert(s2 + values.drop_first() =~= (if s.len() < cap {
            s + values
        } else {
            (s + values).drop_first()
        }));
    }
}

/// The ring invariant: after any sequence of `N` pushes into an empty ring
/// of capacity `C >= 1`, the ring holds exactly `min(N, C)` samples, and they
/// are exactly the last `min(N, C)` pushed values, in push order.
pub proof fn lemma_ring_invariant(cap: nat, values: Seq<u64>)
    requires
        cap >= 1,
    ensures
        ring_push_all(Seq::<u64>::empty(), cap, values).len() == (if values.len() <= cap {
            values.len()
        } else {
            cap
        }),
        ring_push_all(Seq::<u64>::empty(), cap, values) == (if values.len() <= cap {
            values
        } else {
            last_n(values, cap)
        }),
{
    lemma_ring_push_all_general(Seq::<u64>::empty(), cap, values);
    if values.len() <= cap {
        assert(Seq::<u64>::empty() + values =~= values);
    } else {
        assert(last_n(Seq::<u64>::empty() + values, cap) =~= last_n(values, cap));
    }
}

/// The snapshot of a history is its most recent `min(n, len)` samples in
/// newest-first order: element `i` of the snapshot is the sample pushed
/// `i` evictions-from-the-end ago.
pub proof fn lemma_snapshot_newest_first(s: Seq<u64>, n: nat)
    ensures
        newest_first(s, n).len() == (if n <= s.len() {
            n
        } else {
            s.len()
        }),
        forall|i: int|
            0 <= i < newest_first(s, n).len() ==> newest_first(s, n)[i] == s[s.len() - 1 - i],
        newest_first(s, n) == last_n(
            s,
            (if n <= s.len() {
                n
            } else {
                s.len()
            }),
        ).reverse(),
{
    let m: nat = if n <= s.len() {
        n
    } else {
        s.len()
    };
    assert(newest_first(s, n) =~= last_n(s, m).reverse());
}

} // verus!
