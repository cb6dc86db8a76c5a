use vstd::prelude::*;
use std::collections::BTreeMap;
use crate::time::{elapsed_nanos, Duration, Instant};
use crate::key_list::btree_keys;

verus! {

broadcast use {vstd::std_specs::btree::group_btree_axioms, vstd::seq_lib::group_seq_properties};

/// A packet awaiting acknowledgement.
#[derive(Debug, Clone)]
pub struct WindowEntry {
    pub seq: u16,
    pub data: Vec<u8>,
    pub last_sent: Instant,
    pub retries: u32,
}

/// Send window keyed by sequence id.
#[derive(Debug)]
pub struct SlidingWindow {
    pub size: usize,
    pub send_base: u16,
    pub next_seq: u16,
    pub rto: Duration,
    pub in_flight: BTreeMap<u16, WindowEntry>,
}

/// `a` is at or before `b` on the 16-bit circle: `b - a` (wrapping) is below
/// half the range.
pub open spec fn seq_lte_spec(a: u16, b: u16) -> bool {
    b.wrapping_sub(a) < 0x8000
}

/// `m` without the entries at or before `ack` on the circle.
pub open spec fn acked_removed(m: Map<u16, WindowEntry>, ack: u16) -> Map<u16, WindowEntry> {
    Map::new(|k: u16| m.contains_key(k) && !seq_lte_spec(k, ack), |k: u16| m[k])
}

/// Whether the entry for `seq` is due for retransmission at `now`.
pub open spec fn timed_out(w: &SlidingWindow, seq: u16, now: Instant) -> bool {
    elapsed_nanos(now, w.in_flight@[seq].last_sent) >= w.rto.nanos
}

impl SlidingWindow {
    /// An empty window of `size` packets whose first sequence id is `initial_seq`.
    pub fn new(size: usize, initial_seq: u16, rto: Duration) -> (w: Self)
        ensures
            w.size == size,
            w.send_base == initial_seq,
            w.next_seq == initial_seq,
            w.rto == rto,
            w.in_flight@ == Map::<u16, WindowEntry>::empty(),
    {
        SlidingWindow { size, send_base: initial_seq, next_seq: initial_seq, rto, in_flight: BTreeMap::new() }
    }

    fn seq_lte(a: u16, b: u16) -> (r: bool)
        ensures
            r == seq_lte_spec(a, b),
    {
        b.wrapping_sub(a) < 0x8000
    }

    /// Whether fewer than `size` packets are in flight.
    pub fn can_send(&self) -> (r: bool)
        ensures
            r == (self.in_flight@.len() < self.size),
    {
        self.in_flight.len() < self.size
    }

    /// Puts `data` in flight under the next sequence id, sent at `now` and not
    /// yet retried, and returns that id.
    pub fn on_send(&mut self, data: Vec<u8>, now: Instant) -> (seq: u16)
        ensures
            seq == old(self).next_seq,
            final(self).next_seq == old(self).next_seq.wrapping_add(1),
            final(self).send_base == old(self).send_base,
            final(self).size == old(self).size,
            final(self).rto == old(self).rto,
            final(self).in_flight@ == old(self).in_flight@.insert(
                seq,
                WindowEntry { seq, data, last_sent: now, retries: 0 },
            ),
    {
        let seq = self.next_seq;
        self.next_seq = self.next_seq.wrapping_add(1);
        self.in_flight.insert(seq, WindowEntry { seq, data, last_sent: now, retries: 0 });
        seq
    }

    /// Records that `seq` was just sent again at `now`: its time is refreshed
    /// and its retry count grows by one (saturating). Unknown ids are ignored.
    pub fn mark_sent(&mut self, seq: u16, now: Instant)
        ensures
            final(self).next_seq == old(self).next_seq,
            final(self).send_base == old(self).send_base,
            final(self).size == old(self).size,
            final(self).rto == old(self).rto,
            final(self).in_flight@ == if old(self).in_flight@.contains_key(seq) {
                old(self).in_flight@.insert(
                    seq,
                    WindowEntry {
                        last_sent: now,
                        retries: old(self).in_flight@[seq].retries.saturating_add(1),
                        ..old(self).in_flight@[seq]
                    },
                )
            } else {
                old(self).in_flight@
            },
    {
        if let Some(e) = self.in_flight.remove(&seq) {
            let e2 = WindowEntry { last_sent: now, retries: e.retries.saturating_add(1), ..e };
            self.in_flight.insert(seq, e2);
            assert(self.in_flight@ =~= old(self).in_flight@.insert(seq, e2));
        }
    }

    /// Acknowledges every packet at or before `ack_seq` on the circle; the
    /// base moves past `ack_seq` when it was at or before it.
    pub fn on_ack(&mut self, ack_seq: u16)
        ensures
            final(self).next_seq == old(self).next_seq,
            final(self).size == old(self).size,
            final(self).rto == old(self).rto,
            final(self).in_flight@ == acked_removed(old(self).in_flight@, ack_seq),
            final(self).send_base == if seq_lte_spec(old(self).send_base, ack_seq) {
                ack_seq.wrapping_add(1)
            } else {
                old(self).send_base
            },
    {
        let ghost m0 = self.in_flight@;
        let keys = btree_keys(&self.in_flight);
        let mut i: usize = 0;
        while i < keys.len()
            invariant
                i <= keys@.len(),
                keys@.to_set() == m0.dom(),
                self.next_seq == old(self).next_seq,
                self.send_base == old(self).send_base,
                self.size == old(self).size,
                self.rto == old(self).rto,
                self.in_flight@ == Map::new(
                    |k: u16| m0.contains_key(k) && !(keys@.take(i as int).contains(k) && seq_lte_spec(k, ack_seq)),
                    |k: u16| m0[k],
                ),
            decreases keys@.len() - i,
        {
            let k = keys[i];
            if Self::seq_lte(k, ack_seq) {
                self.in_flight.remove(&k);
            }
            assert(keys@.take(i + 1) =~= keys@.take(i as int).push(k));
            i = i + 1;
            assert(self.in_flight@ =~= Map::new(
                |x: u16| m0.contains_key(x) && !(keys@.take(i as int).contains(x) && seq_lte_spec(x, ack_seq)),
                |x: u16| m0[x],
            ));
        }
        assert(keys@.take(keys@.len() as int) =~= keys@);
        assert(self.in_flight@ =~= acked_removed(m0, ack_seq));
        if Self::seq_lte(self.send_base, ack_seq) {
            self.send_base = ack_seq.wrapping_add(1);
        }
    }

    /// The sequence ids due for retransmission at `now`, in increasing order.
    pub fn timeouts(&self, now: Instant) -> (r: Vec<u16>)
        ensures
            forall|i: int, j: int| 0 <= i < j < r@.len() ==> r@[i] < r@[j],
            forall|k: u16|
                #[trigger] r@.contains(k) <==> self.in_flight@.contains_key(k) && timed_out(
                    self,
                    k,
                    now,
                ),
    {
        let keys = btree_keys(&self.in_flight);
        let mut out: Vec<u16> = Vec::new();
        let mut i: usize = 0;
        while i < keys.len()
            invariant
                i <= keys@.len(),
                keys@.to_set() == self.in_flight@.dom(),
                forall|a: int, b: int| 0 <= a < b < keys@.len() ==> keys@[a] < keys@[b],
                forall|a: int, b: int| 0 <= a < b < out@.len() ==> out@[a] < out@[b],
                forall|a: int| #![trigger out@[a]] 0 <= a < out@.len() ==> exists|b: int| 0 <= b < i && #[trigger] keys@[b] == out@[a],
                forall|k: u16|
                    #[trigger] out@.contains(k) <==> keys@.take(i as int).contains(k) && timed_out(
                        self,
                        k,
                        now,
                    ),
            decreases keys@.len() - i,
        {
            let k = keys[i];
            assert(self.in_flight@.contains_key(k)) by {
                assert(keys@.to_set().contains(k));
            }
            let e = self.in_flight.get(&k).unwrap();
            let ghost out0 = out@;
            if now.duration_since(e.last_sent).nanos >= self.rto.nanos {
                proof {
                    assert forall|a: int| 0 <= a < out0.len() implies out0[a] < k by {
                        let b = choose|b: int| 0 <= b < i && keys@[b] == out0[a];
                    }
                }
                out.push(k);
            }
            assert(keys@.take(i + 1) =~= keys@.take(i as int).push(k));
            i = i + 1;
        }
        assert(keys@.take(keys@.len() as int) =~= keys@);
        out
    }

    /// The data in flight under `seq`, if any.
    pub fn get(&self, seq: u16) -> (r: Option<&[u8]>)
        ensures
            match r {
                Some(d) => self.in_flight@.contains_key(seq) && d@ == self.in_flight@[seq].data@,
                None => !self.in_flight@.contains_key(seq),
            },
    {
        match self.in_flight.get(&seq) {
            Some(e) => Some(e.data.as_slice()),
            None => None,
        }
    }
}

/// What is sent is in flight: right after `on_send`, `get` of the returned
/// id finds the data, and the next id is one past it.
pub proof fn lemma_send_then_get(w: Map<u16, WindowEntry>, seq: u16, data: Vec<u8>, now: Instant)
    ensures
        ({
            let m = w.insert(seq, WindowEntry { seq, data, last_sent: now, retries: 0 });
            m.contains_key(seq) && m[seq].data@ == data@
        }),
{
}

/// After an acknowledgement nothing at or before it on the circle is in
/// flight, and everything after it is untouched.
pub proof fn lemma_ack_clears(m: Map<u16, WindowEntry>, ack: u16)
    ensures
        forall|k: u16| seq_lte_spec(k, ack) ==> !#[trigger] acked_removed(m, ack).contains_key(k),
        forall|k: u16|
            m.contains_key(k) && !seq_lte_spec(k, ack) ==> #[trigger] acked_removed(m, ack).contains_key(k)
                && acked_removed(m, ack)[k] == m[k],
{
}

} // verus!
