use vstd::prelude::*;
use std::collections::BTreeMap;
use crate::key_list::btree_keys;
use crate::prudp::packet::PRUDPPacket;

verus! {

broadcast use {vstd::std_specs::btree::group_btree_axioms, vstd::seq_lib::group_seq_properties};

/// Orders incoming packets by sequence id and hands them out without gaps.
pub struct PacketDispatchQueue {
    queue: BTreeMap<u16, PRUDPPacket>,
    pub next_expected_sequence_id: u16,
}

/// The first id after `start` (going round the circle) that `m` lacks, as a
/// distance `d` in `1..=65536`.
pub open spec fn is_gap_after(m: Map<u16, PRUDPPacket>, start: u16, d: int) -> bool {
    &&& 1 <= d <= 65536
    &&& !m.contains_key(((start + d) % 65536) as u16)
    &&& forall|e: int| 1 <= e < d ==> m.contains_key(#[trigger] ((start + e) % 65536) as u16)
}

impl PacketDispatchQueue {
    /// The queued packets by sequence id.
    pub closed spec fn queued(&self) -> Map<u16, PRUDPPacket> {
        self.queue@
    }

    /// The sequence id of the next packet to hand out.
    pub closed spec fn next_expected(&self) -> u16 {
        self.next_expected_sequence_id
    }

    /// An empty queue expecting `start` first.
    pub fn new(start: u16) -> (q: Self)
        ensures
            q.queued() == Map::<u16, PRUDPPacket>::empty(),
            q.next_expected() == start,
    {
        PacketDispatchQueue { queue: BTreeMap::new(), next_expected_sequence_id: start }
    }

    /// Queues `pkt` under its sequence id, unless that id is below the next
    /// expected one or already queued (the first packet queued is kept).
    pub fn queue_packet(&mut self, pkt: PRUDPPacket)
        ensures
            final(self).next_expected() == old(self).next_expected(),
            final(self).queued() == if pkt.header.sequence_id < old(self).next_expected()
                || old(self).queued().contains_key(pkt.header.sequence_id) {
                old(self).queued()
            } else {
                old(self).queued().insert(pkt.header.sequence_id, pkt)
            },
    {
        let seq = pkt.header.sequence_id;
        if seq < self.next_expected_sequence_id {
            return;
        }
        if !self.queue.contains_key(&seq) {
            self.queue.insert(seq, pkt);
        }
    }

    /// A copy of the queued packet with the next expected sequence id, if any.
    pub fn get_next_to_dispatch(&self) -> (r: Option<PRUDPPacket>)
        ensures
            match r {
                Some(p) => self.queued().contains_key(self.next_expected()) && p@ == self.queued()[self.next_expected()]@,
                None => !self.queued().contains_key(self.next_expected()),
            },
    {
        match self.queue.get(&self.next_expected_sequence_id) {
            Some(p) => Some(p.duplicate()),
            None => None,
        }
    }

    /// Removes the packet queued under `pkt`'s sequence id; when there was
    /// one, the next expected id moves forward (round the circle) to the first
    /// id after it that is not queued.
    pub fn dispatched(&mut self, pkt: &PRUDPPacket)
        ensures
            final(self).queued() == old(self).queued().remove(pkt.header.sequence_id),
            old(self).queued().contains_key(pkt.header.sequence_id) ==> exists|d: int|
                is_gap_after(final(self).queued(), old(self).next_expected(), d)
                    && final(self).next_expected() == #[trigger] ((old(self).next_expected() + d) % 65536) as u16,
            !old(self).queued().contains_key(pkt.header.sequence_id) ==> final(self).next_expected()
                == old(self).next_expected(),
    {
        let seq = pkt.header.sequence_id;
        if self.queue.remove(&seq).is_some() {
            let start = self.next_expected_sequence_id;
            let ghost bound: int = if seq > start {
                seq - start
            } else {
                seq + 65536 - start
            };
            let mut d: u32 = 0;
            loop
                invariant_except_break
                    d < bound,
                    forall|e: int| 1 <= e <= d ==> self.queue@.contains_key(#[trigger] ((start + e) % 65536) as u16),
                invariant
                    d <= bound,
                    1 <= bound <= 65536,
                    ((start + bound) % 65536) as u16 == seq,
                    !self.queue@.contains_key(seq),
                    self.queue@ == old(self).queue@.remove(seq),
                    start == old(self).next_expected_sequence_id,
                    self.next_expected_sequence_id == ((start + d) % 65536) as u16,
                    forall|e: int| 1 <= e < d ==> self.queue@.contains_key(#[trigger] ((start + e) % 65536) as u16),
                ensures
                    is_gap_after(self.queue@, start, d as int),
                    self.next_expected_sequence_id == ((start + d) % 65536) as u16,
                    self.queue@ == old(self).queue@.remove(seq),
                decreases bound - d,
            {
                self.next_expected_sequence_id = self.next_expected_sequence_id.wrapping_add(1);
                d = d + 1;
                assert(self.next_expected_sequence_id == ((start + d) % 65536) as u16);
                if !self.queue.contains_key(&self.next_expected_sequence_id) {
                    break;
                }
            }
            let ghost dd: int = d as int;
            assert(is_gap_after(self.queue@, start, dd)
                && self.next_expected_sequence_id == ((start + dd) % 65536) as u16);
            assert(is_gap_after(self.queued(), old(self).next_expected(), dd)
                && self.next_expected() == ((old(self).next_expected() + dd) % 65536) as u16);
        }
    }

    /// Forgets every queued packet whose sequence id is below `threshold_seq`.
    pub fn purge_older_than(&mut self, threshold_seq: u16)
        ensures
            final(self).next_expected() == old(self).next_expected(),
            final(self).queued() == Map::new(
                |k: u16| old(self).queued().contains_key(k) && k >= threshold_seq,
                |k: u16| old(self).queued()[k],
            ),
    {
        let ghost m0 = self.queue@;
        let keys = btree_keys(&self.queue);
        let mut i: usize = 0;
        while i < keys.len()
            invariant
                i <= keys@.len(),
                keys@.to_set() == m0.dom(),
                self.next_expected_sequence_id == old(self).next_expected_sequence_id,
                self.queue@ == Map::new(
                    |k: u16| m0.contains_key(k) && !(keys@.take(i as int).contains(k) && k < threshold_seq),
                    |k: u16| m0[k],
                ),
            decreases keys@.len() - i,
        {
            let k = keys[i];
            if k < threshold_seq {
                self.queue.remove(&k);
            }
            assert(keys@.take(i + 1) =~= keys@.take(i as int).push(k));
            i = i + 1;
            assert(self.queue@ =~= Map::new(
                |x: u16| m0.contains_key(x) && !(keys@.take(i as int).contains(x) && x < threshold_seq),
                |x: u16| m0[x],
            ));
        }
        assert(keys@.take(keys@.len() as int) =~= keys@);
        assert(self.queue@ =~= Map::new(
            |k: u16| m0.contains_key(k) && k >= threshold_seq,
            |k: u16| m0[k],
        ));
    }
}

} // verus!
