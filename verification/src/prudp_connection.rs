use vstd::prelude::*;
use crate::byte_stream_in::ByteStreamIn;
use crate::constants::prudp_packet_types::PRUDPPacketType;
use crate::error::Result;
use crate::prudp_packet_v1::{
    signed_v1, v1_encoding, v1_result_matches, with_connection_signature, zero_v1, PRUDPPacketV1, V1Model,
};
use crate::prudp_v1_settings::{connection_signature_of, PRUDPV1Settings};
use crate::sliding_window::{SlidingWindow, WindowEntry};
use crate::time::{Duration, Instant};
use crate::types::address::SocketAddress;

verus! {

/// The state of a PRUDP v1 connection apart from its socket: the peer, the
/// settings and session key that sign packets, the send window, and the
/// session, substream and port numbers.
pub struct PRUDPConnectionState {
    pub remote: SocketAddress,
    pub settings: PRUDPV1Settings,
    pub session_key: Vec<u8>,
    pub window: SlidingWindow,
    pub session_id: u8,
    pub substream_id: u8,
    pub source_port: u8,
    pub dest_port: u8,
}

/// The unsigned DATA packet a connection sends for `payload` under `seq`.
pub open spec fn data_v1(c: &PRUDPConnectionState, seq: u16, payload: Seq<u8>) -> V1Model {
    V1Model {
        version: 1,
        source_virtual_port: c.source_port,
        destination_virtual_port: c.dest_port,
        packet_type: 2,
        flags: 0,
        session_id: c.session_id,
        substream_id: c.substream_id,
        sequence_id: seq,
        payload,
        ..zero_v1()
    }
}

/// The signed form of `m` under the connection's settings, peer and session
/// key: the connection signature set, then the packet signature.
pub open spec fn signed_for(c: &PRUDPConnectionState, m: V1Model) -> V1Model {
    signed_v1(
        with_connection_signature(m, connection_signature_of(c.settings.connection_signature_key@, c.remote)),
        vstd::utf8::encode_utf8(c.settings.access_key@),
        c.settings.legacy_connection_signature,
        c.session_key@,
    )
}

impl PRUDPConnectionState {
    /// A connection to `remote`: a 64-packet window from sequence id 1 with a
    /// 500 ms retransmit timeout, session 1, substream and ports 0.
    pub fn new(remote: SocketAddress, settings: PRUDPV1Settings, session_key: Vec<u8>) -> (c: Self)
        ensures
            c.remote == remote,
            c.settings == settings,
            c.session_key == session_key,
            c.window.size == 64,
            c.window.send_base == 1,
            c.window.next_seq == 1,
            c.window.rto.nanos == 500_000_000,
            c.window.in_flight@ == Map::<u16, WindowEntry>::empty(),
            c.session_id == 1,
            c.substream_id == 0,
            c.source_port == 0,
            c.dest_port == 0,
    {
        let window = SlidingWindow::new(64, 1, Duration::from_millis(500));
        PRUDPConnectionState {
            remote,
            settings,
            session_key,
            window,
            session_id: 1,
            substream_id: 0,
            source_port: 0,
            dest_port: 0,
        }
    }

    /// Puts `payload` in flight under the next sequence id, at `now`, and
    /// returns that id with the wire bytes of the signed DATA packet that
    /// carries it.
    pub fn prepare_data(&mut self, payload: Vec<u8>, now: Instant) -> (r: (u16, Vec<u8>))
        ensures
            r.0 == old(self).window.next_seq,
            r.1@ == v1_encoding(signed_for(old(self), data_v1(old(self), r.0, payload@))),
            final(self).window.next_seq == old(self).window.next_seq.wrapping_add(1),
            final(self).window.send_base == old(self).window.send_base,
            final(self).window.in_flight@.dom() == old(self).window.in_flight@.dom().insert(r.0),
            final(self).window.in_flight@[r.0].data@ == payload@,
            final(self).window.in_flight@[r.0].last_sent == now,
            final(self).remote == old(self).remote,
            final(self).settings == old(self).settings,
            final(self).session_key == old(self).session_key,
            final(self).session_id == old(self).session_id,
            final(self).substream_id == old(self).substream_id,
            final(self).source_port == old(self).source_port,
            final(self).dest_port == old(self).dest_port,
    {
        let seq = self.window.on_send(payload.clone(), now);
        let mut p = PRUDPPacketV1::new_empty();
        p.base.version = 1;
        p.base.source_virtual_port = self.source_port;
        p.base.destination_virtual_port = self.dest_port;
        p.base.packet_type = PRUDPPacketType::Data.as_u16();
        p.base.flags = 0;
        p.base.session_id = self.session_id;
        p.base.substream_id = self.substream_id;
        p.base.sequence_id = seq;
        p.base.payload = payload;
        assert(p@ == data_v1(self, seq, p.base.payload@));
        p.compute_connection_signature(&self.settings, self.remote);
        p.compute_signature(&self.settings, self.session_key.as_slice());
        let bytes = p.to_bytes();
        proof {
            assert(self.window.in_flight@.dom() =~= old(self).window.in_flight@.dom().insert(seq));
        }
        (seq, bytes)
    }

    /// Records that the packet in flight under `seq` went out at `now`: its
    /// entry is stamped `now` with one more retry (saturating), its data and
    /// every other entry unchanged; an id not in flight changes nothing.
    pub fn finish_send(&mut self, seq: u16, now: Instant)
        ensures
            final(self).window.next_seq == old(self).window.next_seq,
            final(self).window.send_base == old(self).window.send_base,
            final(self).window.size == old(self).window.size,
            final(self).window.rto == old(self).window.rto,
            final(self).window.in_flight@ == if old(self).window.in_flight@.contains_key(seq) {
                old(self).window.in_flight@.insert(
                    seq,
                    WindowEntry {
                        last_sent: now,
                        retries: old(self).window.in_flight@[seq].retries.saturating_add(1),
                        ..old(self).window.in_flight@[seq]
                    },
                )
            } else {
                old(self).window.in_flight@
            },
            final(self).remote == old(self).remote,
            final(self).settings == old(self).settings,
            final(self).session_key == old(self).session_key,
            final(self).session_id == old(self).session_id,
            final(self).substream_id == old(self).substream_id,
            final(self).source_port == old(self).source_port,
            final(self).dest_port == old(self).dest_port,
    {
        self.window.mark_sent(seq, now);
    }
}

/// Decodes a received datagram as a PRUDP v1 packet.
pub fn decode_datagram(data: &[u8]) -> (r: Result<PRUDPPacketV1>)
    ensures
        v1_result_matches(r, data@),
{
    let bs = ByteStreamIn::from_bytes(vstd::slice::slice_to_vec(data));
    PRUDPPacketV1::decode(bs)
}

} // verus!
