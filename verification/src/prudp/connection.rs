use vstd::prelude::*;
use std::collections::HashMap;
use std::collections::VecDeque;
use std::sync::Arc;
use crate::key_list::hash_keys;
use crate::prudp::fragmentation::Reassembler;
use crate::prudp::packet::{has_flag, packet_encoding, Flags, PRUDPHeader, PRUDPPacket, PacketModel, PacketType, Version};
use crate::prudp::packet_dispatch_queue::PacketDispatchQueue;
use crate::prudp::sliding::{circular_run, in_flight, SentEntry, SlidingWindow};
use crate::rtt::RTT;
use crate::time::{elapsed_nanos, Duration, Instant};

verus! {

broadcast use {vstd::std_specs::hash::group_hash_axioms, vstd::seq_lib::group_seq_properties};

/// A packet sent and not yet acknowledged: its wire bytes, how many times it
/// went out, and when it last went out.
pub struct PendingSend {
    pub data: Vec<u8>,
    pub attempts: u8,
    pub sent_at: Instant,
}

/// A data packet ready to go out: its sequence id, the payload it carries,
/// and its wire bytes.
pub struct Outgoing {
    pub seq: u16,
    pub payload: Vec<u8>,
    pub bytes: Vec<u8>,
}

/// The state of a reliable PRUDP connection, apart from its socket: packets
/// awaiting acknowledgement, the send window, payloads waiting for room in
/// it, and the receive-side queues.
///
/// The socket work (sending, the retransmit timer, the wake-ups of the
/// sender) is done by the caller, which asks this state what to do next and
/// reports what happened.
pub struct ConnectionState {
    pub pending: HashMap<u16, PendingSend>,
    pub window: SlidingWindow,
    pub send_queue: VecDeque<Vec<u8>>,
    pub dispatch_queue: PacketDispatchQueue,
    pub reassembler: Reassembler,
}

/// The reliable data packet for `payload` under sequence id `seq`: version
/// 1, session 0, no ack id, the size given, and a single fragment (count 1,
/// id 0, index 0).
pub open spec fn data_packet(seq: u16, payload: Seq<u8>) -> PacketModel {
    PacketModel {
        header: PRUDPHeader {
            version: 1,
            packet_type: 2,
            flags: Flags::RELIABLE,
            session_id: 0,
            sequence_id: seq,
            ack_id: 0,
            payload_len: Some(payload.len() as usize),
        },
        payload,
        fragment_id: Some(0),
        fragment_index: Some(0),
        fragment_count: Some(1),
    }
}

/// The window and receive-side parts are the same in `a` and `b`.
pub open spec fn same_window(a: &SlidingWindow, b: &SlidingWindow) -> bool {
    &&& a.window_size == b.window_size
    &&& a.send_base == b.send_base
    &&& a.next_seq == b.next_seq
    &&& a.sent_buffer@ == b.sent_buffer@
    &&& a.recv_states@ == b.recv_states@
    &&& a.rto == b.rto
    &&& a.max_attempts == b.max_attempts
}

impl ConnectionState {
    /// A fresh connection: a 64-packet window, nothing pending or queued,
    /// packets dispatched from sequence id 0, and fragments kept for 30 s.
    pub fn new() -> (c: Self)
        ensures
            c.pending@ == Map::<u16, PendingSend>::empty(),
            c.window.window_size == 64,
            c.window.send_base == 0,
            c.window.next_seq == 1,
            c.window.sent_buffer@ == Map::<u16, SentEntry>::empty(),
            c.window.recv_states@ == Map::<u16, crate::prudp::sliding::RecvState>::empty(),
            c.window.rto.nanos == 500_000_000,
            c.window.max_attempts == 5,
            c.send_queue@ == Seq::<Vec<u8>>::empty(),
            c.dispatch_queue.queued() == Map::<u16, PRUDPPacket>::empty(),
            c.dispatch_queue.next_expected() == 0,
            c.reassembler.map@ == Map::<u32, crate::prudp::fragmentation::ReassemblyState>::empty(),
            c.reassembler.timeout.nanos == 30_000_000_000,
    {
        let rtt = Arc::new(RTT::new());
        let mut window = SlidingWindow::new(64);
        window.attach_rtt(rtt);
        ConnectionState {
            pending: HashMap::new(),
            window,
            send_queue: VecDeque::new(),
            dispatch_queue: PacketDispatchQueue::new(0),
            reassembler: Reassembler::new(Duration::from_secs(30)),
        }
    }

    /// The sequence ids of pending packets that have waited longer than the
    /// window's retransmit timeout at `now`, each once, in the order the
    /// pending map is walked.
    pub fn due_for_retransmit(&self, now: Instant) -> (out: Vec<u16>)
        ensures
            out@.no_duplicates(),
            forall|k: u16| #[trigger] out@.contains(k) <==> self.pending@.contains_key(k)
                && elapsed_nanos(now, self.pending@[k].sent_at) > self.window.rto.nanos,
    {
        let timeout = self.window.current_retry_timeout();
        let keys = hash_keys(&self.pending);
        let mut out: Vec<u16> = Vec::new();
        let mut i: usize = 0;
        while i < keys.len()
            invariant
                i <= keys@.len(),
                keys@.to_set() == self.pending@.dom(),
                keys@.no_duplicates(),
                timeout == self.window.rto,
                out@.no_duplicates(),
                forall|k: u16| #[trigger] out@.contains(k) <==> keys@.take(i as int).contains(k)
                    && elapsed_nanos(now, self.pending@[k].sent_at) > timeout.nanos,
            decreases keys@.len() - i,
        {
            let k = keys[i];
            assert(keys@.take(i + 1) =~= keys@.take(i as int).push(k));
            assert(!keys@.take(i as int).contains(k)) by {
                if keys@.take(i as int).contains(k) {
                    let j = choose|j: int| 0 <= j < i && keys@[j] == k;
                    assert(keys@[j] == keys@[i as int]);
                }
            }
            assert(!out@.contains(k));
            assert(self.pending@.contains_key(k));
            match self.pending.get(&k) {
                Some(p) => {
                    if now.duration_since(p.sent_at).nanos > timeout.nanos {
                        out.push(k);
                    }
                },
                None => {},
            }
            i = i + 1;
        }
        assert(keys@.take(keys@.len() as int) =~= keys@);
        out
    }

    /// A copy of the wire bytes pending under `seq`, if any.
    pub fn retransmit_payload(&self, seq: u16) -> (r: Option<Vec<u8>>)
        ensures
            match r {
                Some(d) => self.pending@.contains_key(seq) && d@ == self.pending@[seq].data@,
                None => !self.pending@.contains_key(seq),
            },
    {
        match self.pending.get(&seq) {
            Some(p) => Some(p.data.clone()),
            None => None,
        }
    }

    /// Records that the packet pending under `seq` went out again at `now`:
    /// one more attempt (wrapping) and the new time; the window stamps its
    /// entry too.
    pub fn record_retransmit(&mut self, seq: u16, now: Instant)
        ensures
            final(self).pending@.dom() == old(self).pending@.dom(),
            forall|k: u16| k != seq && #[trigger] old(self).pending@.contains_key(k)
                ==> final(self).pending@[k] == old(self).pending@[k],
            old(self).pending@.contains_key(seq) ==> {
                &&& final(self).pending@[seq].data == old(self).pending@[seq].data
                &&& final(self).pending@[seq].attempts == old(self).pending@[seq].attempts.wrapping_add(1)
                &&& final(self).pending@[seq].sent_at == now
            },
            crate::prudp::sliding::same_but_time(old(self).window.sent_buffer@, final(self).window.sent_buffer@, seq),
            final(self).window.send_base == old(self).window.send_base,
            final(self).window.next_seq == old(self).window.next_seq,
            final(self).window.rto == old(self).window.rto,
            final(self).send_queue@ == old(self).send_queue@,
    {
        if let Some(p) = self.pending.remove(&seq) {
            let p2 = PendingSend { data: p.data, attempts: p.attempts.wrapping_add(1), sent_at: now };
            self.pending.insert(seq, p2);
        }
        proof {
            assert(self.pending@.dom() =~= old(self).pending@.dom());
        }
        self.window.mark_sent(seq);
    }

    /// The next data packet to send, when the window has room and a payload
    /// waits: the payload leaves the front of the queue and takes the next
    /// sequence id. Otherwise `None`, and nothing changes.
    pub fn next_outgoing(&mut self) -> (r: Option<Outgoing>)
        ensures
            final(self).pending@ == old(self).pending@,
            final(self).window.sent_buffer@ == old(self).window.sent_buffer@,
            final(self).window.send_base == old(self).window.send_base,
            final(self).window.window_size == old(self).window.window_size,
            final(self).window.rto == old(self).window.rto,
            (in_flight(&old(self).window) < old(self).window.window_size && old(self).send_queue@.len() > 0)
                ==> (r matches Some(o) && {
                &&& o.seq == old(self).window.next_seq
                &&& o.payload == old(self).send_queue@[0]
                &&& o.bytes@ == packet_encoding(data_packet(o.seq, o.payload@))
                &&& final(self).window.next_seq == old(self).window.next_seq.wrapping_add(1)
                &&& final(self).send_queue@ == old(self).send_queue@.drop_first()
            }),
            !(in_flight(&old(self).window) < old(self).window.window_size && old(self).send_queue@.len() > 0)
                ==> (r is None && final(self).window.next_seq == old(self).window.next_seq
                && final(self).send_queue@ == old(self).send_queue@),
    {
        if !self.window.can_send() {
            return None;
        }
        let payload = match self.send_queue.pop_front() {
            Some(p) => p,
            None => return None,
        };
        let seq = self.window.next_sequence();
        let header = PRUDPHeader {
            version: Version::V1.as_u8(),
            packet_type: PacketType::Data.as_u16(),
            flags: Flags::RELIABLE,
            session_id: 0,
            sequence_id: seq,
            ack_id: 0,
            payload_len: Some(payload.len()),
        };
        let pkt = PRUDPPacket {
            header,
            payload: payload.clone(),
            fragment_count: Some(1),
            fragment_id: Some(0),
            fragment_index: Some(0),
        };
        assert(pkt@ == data_packet(seq, payload@));
        match pkt.to_bytes() {
            Ok(bytes) => Some(Outgoing { seq, payload, bytes }),
            Err(_) => {
                self.send_queue.push_front(payload);
                None
            },
        }
    }

    /// Puts a payload that could not be sent back at the front of the queue.
    pub fn requeue(&mut self, payload: Vec<u8>)
        ensures
            final(self).send_queue@ == seq![payload] + old(self).send_queue@,
            final(self).pending@ == old(self).pending@,
            same_window(&final(self).window, &old(self).window),
    {
        self.send_queue.push_front(payload);
    }

    /// Queues a payload to be sent when the window has room.
    pub fn queue_send(&mut self, payload: Vec<u8>)
        ensures
            final(self).send_queue@ == old(self).send_queue@.push(payload),
            final(self).pending@ == old(self).pending@,
            same_window(&final(self).window, &old(self).window),
    {
        self.send_queue.push_back(payload);
    }

    /// Records that the packet `bytes` went out under `seq` at `now`: it is
    /// pending with one attempt, and the window holds it too.
    pub fn record_sent(&mut self, seq: u16, bytes: Vec<u8>, now: Instant)
        ensures
            final(self).pending@.dom() == old(self).pending@.dom().insert(seq),
            forall|k: u16| k != seq && #[trigger] old(self).pending@.contains_key(k)
                ==> final(self).pending@[k] == old(self).pending@[k],
            final(self).pending@[seq].data@ == bytes@,
            final(self).pending@[seq].attempts == 1,
            final(self).pending@[seq].sent_at == now,
            final(self).window.sent_buffer@.dom() == old(self).window.sent_buffer@.dom().insert(seq),
            final(self).window.sent_buffer@[seq].payload == bytes,
            final(self).window.sent_buffer@[seq].attempts == 1,
            final(self).window.send_base == old(self).window.send_base,
            final(self).window.next_seq == old(self).window.next_seq,
            final(self).send_queue@ == old(self).send_queue@,
    {
        self.pending.insert(seq, PendingSend { data: bytes.clone(), attempts: 1, sent_at: now });
        self.window.queue_sent(seq, bytes);
        proof {
            assert(self.pending@.dom() =~= old(self).pending@.dom().insert(seq));
        }
    }

    /// Handles a packet from the peer. An acknowledgement (`ACK` flag)
    /// clears the packet pending under its sequence id and, when there was
    /// one, acknowledges the window up to that id; nothing is handed up.
    /// Any other packet's payload is handed up, and nothing changes.
    pub fn handle_incoming_packet(&mut self, pkt: PRUDPPacket) -> (r: Option<Vec<u8>>)
        ensures
            has_flag(pkt.header.flags, Flags::ACK) ==> {
                let seq = pkt.header.sequence_id;
                &&& r is None
                &&& final(self).pending@ == old(self).pending@.remove(seq)
                &&& old(self).pending@.contains_key(seq) ==> {
                    &&& final(self).window.sent_buffer@ == old(self).window.sent_buffer@.remove_keys(
                        circular_run(old(self).window.send_base, (seq + 1 - old(self).window.send_base) % 65536),
                    )
                    &&& final(self).window.send_base == seq.wrapping_add(1)
                    &&& final(self).window.next_seq == old(self).window.next_seq
                    &&& final(self).window.window_size == old(self).window.window_size
                    &&& final(self).window.recv_states@ == old(self).window.recv_states@
                    &&& final(self).window.rto == old(self).window.rto
                    &&& final(self).window.max_attempts == old(self).window.max_attempts
                }
                &&& !old(self).pending@.contains_key(seq) ==> same_window(&final(self).window, &old(self).window)
            },
            !has_flag(pkt.header.flags, Flags::ACK) ==> {
                &&& r matches Some(p) && p@ == pkt.payload@
                &&& final(self).pending@ == old(self).pending@
                &&& same_window(&final(self).window, &old(self).window)
            },
            final(self).send_queue@ == old(self).send_queue@,
    {
        if Flags::contains(pkt.header.flags, Flags::ACK) {
            let seq = pkt.header.sequence_id;
            if self.pending.remove(&seq).is_some() {
                self.window.mark_acked(seq);
            }
            return None;
        }
        Some(pkt.payload)
    }
}

} // verus!
