use vstd::prelude::*;
use std::collections::BTreeMap;
use std::collections::HashMap;
use std::sync::Arc;
use crate::time::{elapsed_nanos, Duration, Instant};
use crate::rtt::RTT;
use crate::key_list::hash_keys;

verus! {

broadcast use {
    vstd::std_specs::btree::group_btree_axioms,
    vstd::std_specs::hash::group_hash_axioms,
    vstd::seq_lib::group_seq_properties,
};

/// The `d` ids `base`, `base + 1`, ... on the 16-bit circle.
pub open spec fn circular_run(base: u16, d: int) -> Set<u16> {
    Set::new(|k: u16| (k - base) % 65536 < d)
}

/// `base + e` on the 16-bit circle.
pub open spec fn circle_add(base: u16, e: int) -> u16 {
    ((base + e) % 65536) as u16
}

/// How many ids, counting from `base + j`, follow on from each other in
/// `keys`; the result is the distance from `base` of the first id after that
/// run that `keys` lacks (65536 when every id is there).
pub open spec fn run_len(keys: Set<u16>, base: u16, j: nat) -> nat
    decreases 65536 - j,
{
    if j < 65536 && keys.contains(circle_add(base, j as int)) {
        run_len(keys, base, j + 1)
    } else {
        j
    }
}

/// Bit `b` of `mask` is set.
pub open spec fn nak_bit(mask: u32, b: u32) -> bool {
    (mask >> b) & 1u32 == 1u32
}

/// `mask` has bit `i` (for `i` below 32) set exactly when `keys` holds
/// `base + i` on the circle.
pub open spec fn nak_mask_of(keys: Set<u16>, base: u16, mask: u32) -> bool {
    forall|i: u32| i < 32 ==> (#[trigger] nak_bit(mask, i) <==> keys.contains(circle_add(base, i as int)))
}

/// `run_len` never goes below its start, covers only ids of `keys`, and stops
/// at a gap or after the whole circle.
pub proof fn lemma_run_len(keys: Set<u16>, base: u16, j: nat)
    requires
        j <= 65536,
    ensures
        j <= run_len(keys, base, j) <= 65536,
        forall|e: int| j <= e < run_len(keys, base, j) ==> keys.contains(#[trigger] circle_add(base, e)),
        run_len(keys, base, j) < 65536 ==> !keys.contains(circle_add(base, run_len(keys, base, j) as int)),
    decreases 65536 - j,
{
    if j < 65536 && keys.contains(circle_add(base, j as int)) {
        lemma_run_len(keys, base, j + 1);
    }
}

proof fn lemma_run_step(base: u16, j: int)
    requires
        0 <= j < 65536,
    ensures
        circular_run(base, j + 1) == circular_run(base, j).insert(circle_add(base, j)),
        !circular_run(base, j).contains(circle_add(base, j)),
{
    assert forall|k: u16| circular_run(base, j + 1).contains(k) <==> circular_run(base, j).insert(
        circle_add(base, j),
    ).contains(k) by {
        if (k - base) % 65536 == j {
            assert(k == circle_add(base, j));
        }
        if k == circle_add(base, j) {
            assert((k - base) % 65536 == j);
        }
    }
    assert(circular_run(base, j + 1) =~= circular_run(base, j).insert(circle_add(base, j)));
    assert((circle_add(base, j) - base) % 65536 == j);
}

proof fn lemma_run_full(base: u16)
    ensures
        forall|k: u16| #[trigger] circular_run(base, 65536).contains(k),
{
}

proof fn lemma_set_bit(mask: u32, i: u32, b: u32)
    requires
        i < 32,
        b < 32,
    ensures
        nak_bit(mask | (1u32 << i), b) == (b == i || nak_bit(mask, b)),
{
    assert(((mask | (1u32 << i)) >> b) & 1u32 == 1u32 <==> (b == i || (mask >> b) & 1u32 == 1u32))
        by (bit_vector)
        requires
            i < 32,
            b < 32,
    ;
}

proof fn lemma_zero_bits(b: u32)
    requires
        b < 32,
    ensures
        !nak_bit(0u32, b),
{
    assert((0u32 >> b) & 1u32 != 1u32) by (bit_vector)
        requires
            b < 32,
    ;
}

/// Receive-side state of one stream: the next id to deliver, the payloads
/// that came early, and the ids seen (with when they were seen).
#[derive(Debug)]
pub struct RecvState {
    pub recv_base: u16,
    pub recv_buffer: BTreeMap<u16, Vec<u8>>,
    pub seen: HashMap<u16, Instant>,
}

impl RecvState {
    /// What `offer(seq, payload)` does to a state with base `base`, buffer
    /// `buffer` and seen ids `seen`, giving `post` and returning `r`. Ids before the base are ignored. Otherwise the payload is
    /// buffered (a payload already buffered under `seq` is kept) and `seq`
    /// is marked seen. Then, when the base id is buffered, the run of buffered
    /// ids from the base is delivered (removed) and the base moves past it;
    /// else a NAK is returned: the missing base id, and the mask of which of
    /// the 32 ids from there are buffered (bit `i` for the base plus `i`).
    pub open spec fn offered(
        base: u16,
        buffer: Map<u16, Vec<u8>>,
        seen: Map<u16, Instant>,
        seq: u16,
        payload: Vec<u8>,
        post: &RecvState,
        r: Option<(u16, u32)>,
    ) -> bool {
        if seq < base {
            &&& r is None
            &&& post.recv_base == base
            &&& post.recv_buffer@ == buffer
            &&& post.seen@ == seen
        } else {
            let buf1 = if buffer.contains_key(seq) {
                buffer
            } else {
                buffer.insert(seq, payload)
            };
            &&& post.seen@.dom() == seen.dom().insert(seq)
            &&& forall|k: u16| k != seq && #[trigger] seen.contains_key(k) ==> post.seen@[k] == seen[k]
            &&& if buf1.contains_key(base) {
                let d = run_len(buf1.dom(), base, 0);
                &&& r is None
                &&& post.recv_base == circle_add(base, d as int)
                &&& post.recv_buffer@ == buf1.remove_keys(circular_run(base, d as int))
            } else {
                &&& post.recv_base == base
                &&& post.recv_buffer@ == buf1
                &&& r matches Some((nak_base, mask))
                &&& nak_base == base
                &&& nak_mask_of(buf1.dom(), nak_base, mask)
            }
        }
    }

    /// State for a stream whose first id is `start`, with nothing buffered or
    /// seen.
    pub fn new(start: u16) -> (s: Self)
        ensures
            s.recv_base == start,
            s.recv_buffer@ == Map::<u16, Vec<u8>>::empty(),
            s.seen@ == Map::<u16, Instant>::empty(),
    {
        RecvState { recv_base: start, recv_buffer: BTreeMap::new(), seen: HashMap::new() }
    }

    /// Offers the payload received under `seq`; returns the NAK to send when
    /// the base id is still missing (see `offered`).
    pub fn offer(&mut self, seq: u16, payload: Vec<u8>) -> (r: Option<(u16, u32)>)
        ensures
            Self::offered(old(self).recv_base, old(self).recv_buffer@, old(self).seen@, seq, payload, final(self), r),
    {
        if seq < self.recv_base {
            return None;
        }
        if !self.recv_buffer.contains_key(&seq) {
            self.recv_buffer.insert(seq, payload);
        }
        let ghost buf1 = self.recv_buffer@;
        self.seen.insert(seq, Instant::now());
        let ghost seen1 = self.seen@;
        let base0 = self.recv_base;
        if self.recv_buffer.contains_key(&self.recv_base) {
            let ghost mut j: int = 0;
            proof {
                assert(self.recv_buffer@ =~= buf1.remove_keys(circular_run(base0, 0)));
            }
            loop
                invariant
                    0 <= j <= 65536,
                    self.seen@ == seen1,
                    self.recv_base == circle_add(base0, j),
                    self.recv_buffer@ == buf1.remove_keys(circular_run(base0, j)),
                    run_len(buf1.dom(), base0, 0) == run_len(buf1.dom(), base0, j as nat),
                ensures
                    self.seen@ == seen1,
                    j == run_len(buf1.dom(), base0, 0),
                    self.recv_base == circle_add(base0, j),
                    self.recv_buffer@ == buf1.remove_keys(circular_run(base0, j)),
                decreases 65536 - j,
            {
                if self.recv_buffer.remove(&self.recv_base).is_some() {
                    proof {
                        lemma_run_full(base0);
                        if j == 65536 {
                            assert(circular_run(base0, j).contains(circle_add(base0, j)));
                        }
                        lemma_run_step(base0, j);
                        assert(buf1.contains_key(circle_add(base0, j)));
                        assert(self.recv_buffer@ =~= buf1.remove_keys(circular_run(base0, j + 1)));
                        j = j + 1;
                    }
                    self.recv_base = self.recv_base.wrapping_add(1);
                } else {
                    proof {
                        if j < 65536 {
                            lemma_run_step(base0, j);
                            assert(!buf1.contains_key(circle_add(base0, j)));
                        }
                    }
                    break;
                }
            }
            return None;
        }
        let base = self.recv_base;
        let mut mask: u32 = 0;
        let mut i: u32 = 0;
        proof {
            assert forall|b: u32| b < 32 implies !#[trigger] nak_bit(mask, b) by {
                lemma_zero_bits(b);
            }
        }
        while i < 32
            invariant
                i <= 32,
                self.recv_buffer@ == buf1,
                self.seen@ == seen1,
                self.recv_base == base0,
                base == base0,
                forall|b: u32| b < i ==> (#[trigger] nak_bit(mask, b) <==> buf1.contains_key(circle_add(base, b as int))),
                forall|b: u32| i <= b < 32 ==> !#[trigger] nak_bit(mask, b),
            decreases 32 - i,
        {
            let s = base.wrapping_add(i as u16);
            assert(s == circle_add(base, i as int));
            if self.recv_buffer.contains_key(&s) {
                let m0 = mask;
                mask = mask | (1u32 << i);
                proof {
                    assert forall|b: u32| b < 32 implies #[trigger] nak_bit(mask, b) == (b == i || nak_bit(m0, b)) by {
                        lemma_set_bit(m0, i, b);
                    }
                }
            }
            i = i + 1;
        }
        proof {
            assert forall|b: u32| b < 32 implies (#[trigger] nak_bit(mask, b) <==> buf1.dom().contains(circle_add(base, b as int))) by {}
        }
        Some((base, mask))
    }
}

/// A payload that arrives in order (its id is the base) is never NAKed: it is
/// delivered, so it leaves the buffer.
pub proof fn lemma_in_order_delivered(
    base: u16,
    buffer: Map<u16, Vec<u8>>,
    seen: Map<u16, Instant>,
    payload: Vec<u8>,
    post: &RecvState,
    r: Option<(u16, u32)>,
)
    requires
        RecvState::offered(base, buffer, seen, base, payload, post, r),
    ensures
        r is None,
        !post.recv_buffer@.contains_key(base),
{
    let buf1 = if buffer.contains_key(base) {
        buffer
    } else {
        buffer.insert(base, payload)
    };
    assert(buf1.contains_key(base));
    lemma_run_len(buf1.dom(), base, 0);
    let d = run_len(buf1.dom(), base, 0);
    assert(buf1.dom().contains(circle_add(base, 0)));
    assert(d >= 1);
    assert(circular_run(base, d as int).contains(base)) by {
        assert((base - base) % 65536 == 0);
    }
}

/// A NAK names the missing base id: that id is not buffered, and bit 0 of
/// its mask is clear.
pub proof fn lemma_nak_names_gap(
    base: u16,
    buffer: Map<u16, Vec<u8>>,
    seen: Map<u16, Instant>,
    seq: u16,
    payload: Vec<u8>,
    post: &RecvState,
    nak_base: u16,
    mask: u32,
)
    requires
        RecvState::offered(base, buffer, seen, seq, payload, post, Some((nak_base, mask))),
    ensures
        nak_base == base,
        !post.recv_buffer@.contains_key(base),
        !nak_bit(mask, 0),
{
    assert(circle_add(base, 0) == base);
}

/// A sent packet awaiting acknowledgement.
#[derive(Debug, Clone)]
pub struct SentEntry {
    pub seq: u16,
    pub payload: Vec<u8>,
    pub sent_at: Instant,
    pub attempts: u8,
}

/// Send-side window with per-stream receive state.
#[derive(Debug)]
pub struct SlidingWindow {
    pub window_size: u16,
    pub send_base: u16,
    pub next_seq: u16,
    pub sent_buffer: HashMap<u16, SentEntry>,
    pub recv_states: HashMap<u16, RecvState>,
    pub rto: Duration,
    pub max_attempts: u8,
}

/// Ids allocated but not yet acknowledged: `next_seq - send_base`, wrapping.
pub open spec fn in_flight(w: &SlidingWindow) -> u16 {
    w.next_seq.wrapping_sub(w.send_base)
}

/// Whether `e` is due for another send at `now`: it has attempts left and
/// has waited at least `rto` since it was last sent.
pub open spec fn due(e: SentEntry, now: Instant, rto: Duration, max_attempts: u8) -> bool {
    e.attempts < max_attempts && elapsed_nanos(now, e.sent_at) >= rto.nanos
}

/// `e` after a resend at `now`: one more attempt (saturating), sent at `now`.
pub open spec fn resent(e: SentEntry, now: Instant) -> SentEntry {
    SentEntry {
        seq: e.seq,
        payload: e.payload,
        sent_at: now,
        attempts: if e.attempts < 255 { (e.attempts + 1) as u8 } else { 255 },
    }
}

/// The sent buffer after the entries due at `now` are resent.
pub open spec fn after_resend(m: Map<u16, SentEntry>, now: Instant, rto: Duration, max_attempts: u8) -> Map<u16, SentEntry> {
    Map::new(
        |k: u16| m.contains_key(k),
        |k: u16| if due(m[k], now, rto, max_attempts) { resent(m[k], now) } else { m[k] },
    )
}

/// The entries of `m` other than those whose id is the same, apart from the
/// time it was sent, in `m2`.
pub open spec fn same_but_time(m: Map<u16, SentEntry>, m2: Map<u16, SentEntry>, seq: u16) -> bool {
    &&& m2.dom() == m.dom()
    &&& forall|k: u16| k != seq && #[trigger] m.contains_key(k) ==> m2[k] == m[k]
    &&& m.contains_key(seq) ==> m2[seq].seq == m[seq].seq && m2[seq].payload == m[seq].payload
        && m2[seq].attempts == m[seq].attempts
}

/// The stream an offer goes to: `stream_id`, or stream 0.
pub open spec fn stream_or_default(stream_id: Option<u16>) -> u16 {
    match stream_id {
        Some(s) => s,
        None => 0,
    }
}

impl SlidingWindow {
    /// A window of `window_size` packets: nothing sent or buffered, the next
    /// id 1 and the base 0, a 500 ms retransmit timeout and 5 attempts at most.
    pub fn new(window_size: u16) -> (w: Self)
        ensures
            w.window_size == window_size,
            w.send_base == 0,
            w.next_seq == 1,
            w.sent_buffer@ == Map::<u16, SentEntry>::empty(),
            w.recv_states@ == Map::<u16, RecvState>::empty(),
            w.rto.nanos == 500_000_000,
            w.max_attempts == 5,
    {
        SlidingWindow {
            window_size,
            send_base: 0,
            next_seq: 1,
            sent_buffer: HashMap::new(),
            recv_states: HashMap::new(),
            rto: Duration::from_millis(500),
            max_attempts: 5,
        }
    }

    /// Whether fewer than `window_size` ids are in flight.
    pub fn can_send(&self) -> (r: bool)
        ensures
            r == (in_flight(self) < self.window_size),
    {
        let n = self.next_seq.wrapping_sub(self.send_base);
        n < self.window_size
    }

    /// Takes the next id when the window has room (the sent buffer is left
    /// alone); `None` and no change when it is full.
    pub fn allocate_sequence(&mut self) -> (r: Option<u16>)
        ensures
            final(self).window_size == old(self).window_size,
            final(self).send_base == old(self).send_base,
            final(self).sent_buffer@ == old(self).sent_buffer@,
            final(self).recv_states@ == old(self).recv_states@,
            final(self).rto == old(self).rto,
            final(self).max_attempts == old(self).max_attempts,
            in_flight(old(self)) < old(self).window_size ==> r == Some(old(self).next_seq)
                && final(self).next_seq == old(self).next_seq.wrapping_add(1),
            !(in_flight(old(self)) < old(self).window_size) ==> r is None && final(self).next_seq == old(self).next_seq,
    {
        if !self.can_send() {
            return None;
        }
        let seq = self.next_seq;
        self.next_seq = self.next_seq.wrapping_add(1);
        Some(seq)
    }

    /// Takes the next id; the window must have room.
    pub fn next_sequence(&mut self) -> (seq: u16)
        requires
            in_flight(old(self)) < old(self).window_size,
        ensures
            seq == old(self).next_seq,
            final(self).next_seq == old(self).next_seq.wrapping_add(1),
            final(self).window_size == old(self).window_size,
            final(self).send_base == old(self).send_base,
            final(self).sent_buffer@ == old(self).sent_buffer@,
            final(self).recv_states@ == old(self).recv_states@,
            final(self).rto == old(self).rto,
            final(self).max_attempts == old(self).max_attempts,
    {
        match self.allocate_sequence() {
            Some(seq) => seq,
            None => 0,
        }
    }

    /// Stamps the entry for `seq`, if there is one, as sent now.
    pub fn mark_sent(&mut self, seq: u16)
        ensures
            same_but_time(old(self).sent_buffer@, final(self).sent_buffer@, seq),
            final(self).window_size == old(self).window_size,
            final(self).send_base == old(self).send_base,
            final(self).next_seq == old(self).next_seq,
            final(self).recv_states@ == old(self).recv_states@,
            final(self).rto == old(self).rto,
            final(self).max_attempts == old(self).max_attempts,
    {
        if let Some(e) = self.sent_buffer.remove(&seq) {
            let e2 = SentEntry { seq: e.seq, payload: e.payload, sent_at: Instant::now(), attempts: e.attempts };
            self.sent_buffer.insert(seq, e2);
        }
        proof {
            assert(final(self).sent_buffer@.dom() =~= old(self).sent_buffer@.dom());
        }
    }

    /// The retransmit timeout.
    pub fn current_retry_timeout(&self) -> (d: Duration)
        ensures
            d == self.rto,
    {
        self.rto
    }

    /// Accepts a round-trip estimator; the window keeps none.
    pub fn attach_rtt(&mut self, _rtt: Arc<RTT>)
        ensures
            *final(self) == *old(self),
    {
    }

    /// Puts `payload` in the sent buffer under `seq`, sent now with one
    /// attempt (replacing any entry for `seq`).
    pub fn queue_sent(&mut self, seq: u16, payload: Vec<u8>)
        ensures
            final(self).sent_buffer@.dom() == old(self).sent_buffer@.dom().insert(seq),
            forall|k: u16| k != seq && #[trigger] old(self).sent_buffer@.contains_key(k)
                ==> final(self).sent_buffer@[k] == old(self).sent_buffer@[k],
            final(self).sent_buffer@[seq].seq == seq,
            final(self).sent_buffer@[seq].payload == payload,
            final(self).sent_buffer@[seq].attempts == 1,
            final(self).window_size == old(self).window_size,
            final(self).send_base == old(self).send_base,
            final(self).next_seq == old(self).next_seq,
            final(self).recv_states@ == old(self).recv_states@,
            final(self).rto == old(self).rto,
            final(self).max_attempts == old(self).max_attempts,
    {
        let entry = SentEntry { seq, payload, sent_at: Instant::now(), attempts: 1 };
        self.sent_buffer.insert(seq, entry);
    }

    /// Cumulative acknowledgement of every id from the base up to `ack_seq`
    /// (on the circle): their entries leave the sent buffer and the base
    /// moves to the id after `ack_seq`.
    pub fn mark_acked(&mut self, ack_seq: u16)
        ensures
            final(self).sent_buffer@ == old(self).sent_buffer@.remove_keys(
                circular_run(old(self).send_base, (ack_seq + 1 - old(self).send_base) % 65536),
            ),
            final(self).send_base == ack_seq.wrapping_add(1),
            final(self).window_size == old(self).window_size,
            final(self).next_seq == old(self).next_seq,
            final(self).recv_states@ == old(self).recv_states@,
            final(self).rto == old(self).rto,
            final(self).max_attempts == old(self).max_attempts,
    {
        let ghost m0 = self.sent_buffer@;
        let base0 = self.send_base;
        let end = ack_seq.wrapping_add(1);
        let ghost total: int = (ack_seq + 1 - base0) % 65536;
        let mut seq = self.send_base;
        let ghost mut j: int = 0;
        proof {
            assert(self.sent_buffer@ =~= m0.remove_keys(circular_run(base0, 0)));
        }
        while seq != end
            invariant
                0 <= j <= total < 65536,
                total == (end - base0) % 65536,
                seq == circle_add(base0, j),
                self.sent_buffer@ == m0.remove_keys(circular_run(base0, j)),
                self.send_base == base0,
                self.window_size == old(self).window_size,
                self.next_seq == old(self).next_seq,
                self.recv_states@ == old(self).recv_states@,
                self.rto == old(self).rto,
                self.max_attempts == old(self).max_attempts,
            decreases total - j,
        {
            proof {
                if j == total {
                    assert(seq == end);
                }
                lemma_run_step(base0, j);
            }
            self.sent_buffer.remove(&seq);
            seq = seq.wrapping_add(1);
            proof {
                assert(self.sent_buffer@ =~= m0.remove_keys(circular_run(base0, j + 1)));
                j = j + 1;
            }
        }
        proof {
            assert(j == total);
        }
        self.send_base = end;
    }

    /// Acknowledgement of `seq` alone: when it was in the sent buffer it
    /// leaves, and the base moves forward past ids that are neither buffered
    /// nor the next id.
    pub fn mark_acked_single(&mut self, seq: u16)
        ensures
            final(self).sent_buffer@ == old(self).sent_buffer@.remove(seq),
            !old(self).sent_buffer@.contains_key(seq) ==> final(self).send_base == old(self).send_base,
            old(self).sent_buffer@.contains_key(seq) ==> exists|d: int|
                0 <= d <= (old(self).next_seq - old(self).send_base) % 65536
                && final(self).send_base == #[trigger] circle_add(old(self).send_base, d)
                && (final(self).send_base == old(self).next_seq
                    || final(self).sent_buffer@.contains_key(final(self).send_base))
                && forall|e: int| 0 <= e < d ==> {
                    &&& !final(self).sent_buffer@.contains_key(#[trigger] circle_add(old(self).send_base, e))
                    &&& circle_add(old(self).send_base, e) != old(self).next_seq
                },
            final(self).window_size == old(self).window_size,
            final(self).next_seq == old(self).next_seq,
            final(self).recv_states@ == old(self).recv_states@,
            final(self).rto == old(self).rto,
            final(self).max_attempts == old(self).max_attempts,
    {
        if self.sent_buffer.remove(&seq).is_some() {
            let base0 = self.send_base;
            let ghost span: int = (self.next_seq - base0) % 65536;
            let ghost mut d: int = 0;
            while !self.sent_buffer.contains_key(&self.send_base) && self.send_base != self.next_seq
                invariant
                    0 <= d <= span < 65536,
                    span == (self.next_seq - base0) % 65536,
                    self.send_base == circle_add(base0, d),
                    self.sent_buffer@ == old(self).sent_buffer@.remove(seq),
                    self.window_size == old(self).window_size,
                    self.next_seq == old(self).next_seq,
                    self.recv_states@ == old(self).recv_states@,
                    self.rto == old(self).rto,
                    self.max_attempts == old(self).max_attempts,
                    forall|e: int| 0 <= e < d ==> {
                        &&& !self.sent_buffer@.contains_key(#[trigger] circle_add(base0, e))
                        &&& circle_add(base0, e) != self.next_seq
                    },
                decreases span - d,
            {
                proof {
                    if d == span {
                        assert(self.send_base == self.next_seq);
                    }
                }
                self.send_base = self.send_base.wrapping_add(1);
                proof {
                    d = d + 1;
                }
            }
            proof {
                assert(self.send_base == circle_add(base0, d));
            }
        }
    }

    /// Resends what is due at `now`: each entry with attempts left that has
    /// waited at least the retransmit timeout gets one more attempt and is
    /// stamped `now`; returns their ids, each once, in the order the buffer
    /// is walked.
    pub fn retransmit_due(&mut self, now: Instant) -> (out: Vec<u16>)
        ensures
            final(self).sent_buffer@ == after_resend(old(self).sent_buffer@, now, old(self).rto, old(self).max_attempts),
            out@.no_duplicates(),
            forall|k: u16| out@.contains(k) <==> old(self).sent_buffer@.contains_key(k) && due(
                old(self).sent_buffer@[k],
                now,
                old(self).rto,
                old(self).max_attempts,
            ),
            final(self).window_size == old(self).window_size,
            final(self).send_base == old(self).send_base,
            final(self).next_seq == old(self).next_seq,
            final(self).recv_states@ == old(self).recv_states@,
            final(self).rto == old(self).rto,
            final(self).max_attempts == old(self).max_attempts,
    {
        let ghost m0 = self.sent_buffer@;
        let keys = hash_keys(&self.sent_buffer);
        let mut out: Vec<u16> = Vec::new();
        let mut i: usize = 0;
        while i < keys.len()
            invariant
                i <= keys@.len(),
                keys@.to_set() == m0.dom(),
                keys@.no_duplicates(),
                self.rto == old(self).rto,
                self.max_attempts == old(self).max_attempts,
                self.window_size == old(self).window_size,
                self.send_base == old(self).send_base,
                self.next_seq == old(self).next_seq,
                self.recv_states@ == old(self).recv_states@,
                m0 == old(self).sent_buffer@,
                self.sent_buffer@ == Map::new(
                    |k: u16| m0.contains_key(k),
                    |k: u16| if keys@.take(i as int).contains(k) && due(m0[k], now, self.rto, self.max_attempts) {
                        resent(m0[k], now)
                    } else {
                        m0[k]
                    },
                ),
                out@.no_duplicates(),
                forall|k: u16| out@.contains(k) <==> keys@.take(i as int).contains(k) && due(m0[k], now, self.rto, self.max_attempts),
            decreases keys@.len() - i,
        {
            let k = keys[i];
            assert(keys@.take(i + 1) =~= keys@.take(i as int).push(k));
            assert(m0.contains_key(k));
            assert(!keys@.take(i as int).contains(k)) by {
                if keys@.take(i as int).contains(k) {
                    let j = choose|j: int| 0 <= j < i && keys@[j] == k;
                    assert(keys@[j] == keys@[i as int]);
                }
            }
            assert(!out@.contains(k));
            match self.sent_buffer.remove(&k) {
                Some(e) => {
                    if e.attempts < self.max_attempts && now.duration_since(e.sent_at).nanos >= self.rto.nanos {
                        let attempts = e.attempts.saturating_add(1);
                        let e2 = SentEntry { seq: e.seq, payload: e.payload, sent_at: now, attempts };
                        self.sent_buffer.insert(k, e2);
                        out.push(k);
                    } else {
                        self.sent_buffer.insert(k, e);
                    }
                },
                None => {},
            }
            i = i + 1;
            proof {
                assert(self.sent_buffer@ =~= Map::new(
                    |x: u16| m0.contains_key(x),
                    |x: u16| if keys@.take(i as int).contains(x) && due(m0[x], now, self.rto, self.max_attempts) {
                        resent(m0[x], now)
                    } else {
                        m0[x]
                    },
                ));
            }
        }
        proof {
            assert(keys@.take(keys@.len() as int) =~= keys@);
            assert(self.sent_buffer@ =~= after_resend(m0, now, self.rto, self.max_attempts));
        }
        out
    }

    /// Resends what is due now (see `retransmit_due`).
    pub fn retransmit_candidates(&mut self) -> (out: Vec<u16>)
        ensures
            exists|now: Instant| final(self).sent_buffer@ == #[trigger] after_resend(
                old(self).sent_buffer@,
                now,
                old(self).rto,
                old(self).max_attempts,
            ) && forall|k: u16| out@.contains(k) <==> old(self).sent_buffer@.contains_key(k) && due(
                old(self).sent_buffer@[k],
                now,
                old(self).rto,
                old(self).max_attempts,
            ),
            out@.no_duplicates(),
            final(self).window_size == old(self).window_size,
            final(self).send_base == old(self).send_base,
            final(self).next_seq == old(self).next_seq,
            final(self).recv_states@ == old(self).recv_states@,
            final(self).rto == old(self).rto,
            final(self).max_attempts == old(self).max_attempts,
    {
        let now = Instant::now();
        self.retransmit_due(now)
    }

    /// A copy of the payload sent under `seq`, if it awaits acknowledgement.
    pub fn get_payload(&self, seq: u16) -> (r: Option<Vec<u8>>)
        ensures
            match r {
                Some(p) => self.sent_buffer@.contains_key(seq) && p@ == self.sent_buffer@[seq].payload@,
                None => !self.sent_buffer@.contains_key(seq),
            },
    {
        match self.sent_buffer.get(&seq) {
            Some(e) => Some(e.payload.clone()),
            None => None,
        }
    }

    /// Offers a payload to stream `stream_id` (stream 0 when `None`; a
    /// stream first heard of starts at id 1). Nothing is handed back for
    /// delivery; the second part is the stream's NAK, if any.
    pub fn offer_receive_stream(&mut self, stream_id: Option<u16>, seq: u16, payload: Vec<u8>) -> (r: (
        Option<Vec<u8>>,
        Option<(u16, u32)>,
    ))
        ensures
            r.0 is None,
            final(self).recv_states@.dom() == old(self).recv_states@.dom().insert(stream_or_default(stream_id)),
            forall|k: u16| k != stream_or_default(stream_id) && #[trigger] old(self).recv_states@.contains_key(k)
                ==> final(self).recv_states@[k] == old(self).recv_states@[k],
            ({
                let sid = stream_or_default(stream_id);
                let pre = old(self).recv_states@;
                let post = &final(self).recv_states@[sid];
                if pre.contains_key(sid) {
                    RecvState::offered(pre[sid].recv_base, pre[sid].recv_buffer@, pre[sid].seen@, seq, payload, post, r.1)
                } else {
                    RecvState::offered(1, Map::empty(), Map::empty(), seq, payload, post, r.1)
                }
            }),
            final(self).window_size == old(self).window_size,
            final(self).send_base == old(self).send_base,
            final(self).next_seq == old(self).next_seq,
            final(self).sent_buffer@ == old(self).sent_buffer@,
            final(self).rto == old(self).rto,
            final(self).max_attempts == old(self).max_attempts,
    {
        let sid = match stream_id {
            Some(s) => s,
            None => 0u16,
        };
        let mut state = match self.recv_states.remove(&sid) {
            Some(st) => st,
            None => RecvState::new(1),
        };
        let nak = state.offer(seq, payload);
        self.recv_states.insert(sid, state);
        proof {
            assert(self.recv_states@.dom() =~= old(self).recv_states@.dom().insert(sid));
        }
        (None, nak)
    }
}

/// Allocation keeps the window: when an id is handed out (fewer than
/// `window_size` in flight), at most `window_size` are in flight after it.
pub proof fn lemma_allocation_within_window(send_base: u16, next_seq: u16, window_size: u16)
    requires
        next_seq.wrapping_sub(send_base) < window_size,
    ensures
        next_seq.wrapping_add(1).wrapping_sub(send_base) <= window_size,
{
}

/// A payload queued under an id is what `get_payload` then hands back for
/// that id, until the id is acknowledged: a cumulative acknowledgement up to
/// it, from a base at or before it, clears it (an acknowledgement of the id
/// just before the base, which would cover the whole circle, clears nothing).
pub proof fn lemma_queued_then_acked(m: Map<u16, SentEntry>, seq: u16, entry: SentEntry, base: u16, ack: u16)
    requires
        (seq - base) % 65536 <= (ack - base) % 65536 < 65535,
    ensures
        m.insert(seq, entry)[seq].payload == entry.payload,
        !m.insert(seq, entry).remove_keys(circular_run(base, (ack + 1 - base) % 65536)).contains_key(seq),
{
    assert(circular_run(base, (ack + 1 - base) % 65536).contains(seq)) by {
        vstd::arithmetic::div_mod::lemma_add_mod_noop(ack - base, 1, 65536);
        vstd::arithmetic::div_mod::lemma_small_mod(((ack - base) % 65536 + 1) as nat, 65536);
        assert((ack + 1 - base) % 65536 == (ack - base) % 65536 + 1);
    }
}

} // verus!
