use vstd::prelude::*;
use rand::Rng;
use std::collections::HashMap;
use crate::error::Result;
use crate::prudp::packet::{copy_range, PRUDPHeader, PRUDPPacket, PacketModel};
use crate::time::{elapsed_nanos, Duration, Instant};

verus! {

broadcast use {vstd::std_specs::hash::group_hash_axioms, vstd::seq_lib::group_seq_properties};

/// A random `u32` from `rand::thread_rng`.
///
/// Trusted for nothing: no clause speaks of the value, which is random.
#[verifier::external_body]
fn random_u32() -> u32 {
    rand::thread_rng().gen()
}

/// The pieces a payload is cut into for an MTU: the whole payload when the
/// MTU is 0, else consecutive pieces of `mtu` bytes, the last one shorter if
/// needed (an empty payload gives no piece).
pub open spec fn chunks(p: Seq<u8>, mtu: nat) -> Seq<Seq<u8>>
    decreases p.len(),
{
    if mtu == 0 {
        seq![p]
    } else if p.len() == 0 {
        Seq::empty()
    } else if p.len() <= mtu {
        seq![p]
    } else {
        seq![p.take(mtu as int)] + chunks(p.skip(mtu as int), mtu)
    }
}

/// The concatenation of a sequence of pieces.
pub open spec fn flatten(parts: Seq<Seq<u8>>) -> Seq<u8>
    decreases parts.len(),
{
    if parts.len() == 0 {
        Seq::empty()
    } else {
        flatten(parts.drop_last()) + parts.last()
    }
}

/// The packet that carries piece `k` of `p`: the base header with the piece
/// size, the piece, the common fragment id, its index and the piece count
/// (both truncated to 16 bits).
pub open spec fn fragment_model(base: PRUDPHeader, p: Seq<u8>, mtu: nat, fid: u32, k: int) -> PacketModel {
    let cs = chunks(p, mtu);
    PacketModel {
        header: PRUDPHeader { payload_len: Some(cs[k].len() as usize), ..base },
        payload: cs[k],
        fragment_id: Some(fid),
        fragment_index: Some((k % 65536) as u16),
        fragment_count: Some((cs.len() % 65536) as u16),
    }
}

/// `pkts` are the packets that carry the pieces of `p`, in order, with one
/// common fragment id.
pub open spec fn fragments_of(pkts: Seq<PRUDPPacket>, base: PRUDPHeader, p: Seq<u8>, mtu: nat) -> bool {
    &&& pkts.len() == chunks(p, mtu).len()
    &&& pkts.len() > 0 ==> (pkts[0].fragment_id matches Some(fid) && forall|k: int|
        0 <= k < pkts.len() ==> #[trigger] pkts[k]@ == fragment_model(base, p, mtu, fid, k))
}

/// Splits `payload` into packets of at most `mtu` payload bytes (one packet
/// for the whole payload when `mtu` is 0), all with one random fragment id.
/// Always succeeds.
pub fn fragment_into_packets(payload: &[u8], mtu: usize, base_header: &PRUDPHeader) -> (r: Result<
    Vec<PRUDPPacket>,
>)
    ensures
        r matches Ok(pkts) && fragments_of(pkts@, *base_header, payload@, mtu as nat),
{
    let ghost p = payload@;
    let mut frags: Vec<Vec<u8>> = Vec::new();
    let ghost mut cs: Seq<Seq<u8>> = Seq::empty();
    if mtu == 0 {
        frags.push(vstd::slice::slice_to_vec(payload));
        proof {
            cs = seq![p];
        }
    } else {
        let n = payload.len();
        let mut i: usize = 0;
        assert(p.skip(0) =~= p);
        while i < n
            invariant
                mtu > 0,
                i <= n,
                n == p.len(),
                p == payload@,
                frags@.len() == cs.len(),
                forall|k: int| 0 <= k < cs.len() ==> #[trigger] frags@[k]@ == cs[k],
                cs + chunks(p.skip(i as int), mtu as nat) == chunks(p, mtu as nat),
            decreases n - i,
        {
            let end = if n - i <= mtu {
                n
            } else {
                i + mtu
            };
            let piece = copy_range(payload, i, end);
            proof {
                let rest = p.skip(i as int);
                if n - i <= mtu {
                    assert(chunks(rest, mtu as nat) == seq![rest]);
                    assert(piece@ =~= rest);
                    assert(p.skip(end as int) =~= Seq::<u8>::empty());
                } else {
                    assert(piece@ =~= rest.take(mtu as int));
                    assert(rest.skip(mtu as int) =~= p.skip(end as int));
                }
                assert(cs.push(piece@) + chunks(p.skip(end as int), mtu as nat) =~= cs + chunks(
                    rest,
                    mtu as nat,
                ));
                cs = cs.push(piece@);
            }
            frags.push(piece);
            i = end;
        }
        assert(cs =~= chunks(p, mtu as nat));
    }
    let fragment_id: u32 = random_u32();
    let count = (frags.len() as u64 % 65536) as u16;
    let mut packets: Vec<PRUDPPacket> = Vec::new();
    let mut k: usize = 0;
    while k < frags.len()
        invariant
            k <= frags@.len(),
            frags@.len() == cs.len(),
            cs == chunks(p, mtu as nat),
            p == payload@,
            count == (cs.len() % 65536) as u16,
            forall|m: int| 0 <= m < cs.len() ==> #[trigger] frags@[m]@ == cs[m],
            packets@.len() == k,
            forall|m: int|
                0 <= m < k ==> #[trigger] packets@[m]@ == fragment_model(
                    *base_header,
                    p,
                    mtu as nat,
                    fragment_id,
                    m,
                ),
        decreases frags@.len() - k,
    {
        let frag = vstd::slice::slice_to_vec(frags[k].as_slice());
        let mut header = *base_header;
        header.payload_len = Some(frag.len());
        let pkt = PRUDPPacket {
            header,
            payload: frag,
            fragment_id: Some(fragment_id),
            fragment_index: Some((k as u64 % 65536) as u16),
            fragment_count: Some(count),
        };
        packets.push(pkt);
        k = k + 1;
    }
    proof {
        if packets@.len() > 0 {
            assert(packets@[0]@ == fragment_model(*base_header, p, mtu as nat, fragment_id, 0));
            assert(packets@[0].fragment_id == Some(fragment_id));
        }
    }
    Ok(packets)
}

/// Cutting a payload into pieces and joining them gives the payload back.
pub proof fn lemma_chunks_flatten(p: Seq<u8>, mtu: nat)
    ensures
        flatten(chunks(p, mtu)) == p,
    decreases p.len(),
{
    if mtu == 0 {
        lemma_flatten_single(p);
    } else if p.len() == 0 {
    } else if p.len() <= mtu {
        lemma_flatten_single(p);
    } else {
        lemma_chunks_flatten(p.skip(mtu as int), mtu);
        lemma_flatten_prepend(p.take(mtu as int), chunks(p.skip(mtu as int), mtu));
        assert(p.take(mtu as int) + p.skip(mtu as int) =~= p);
    }
}

/// Joining a single piece gives the piece.
pub proof fn lemma_flatten_single(a: Seq<u8>)
    ensures
        flatten(seq![a]) == a,
{
    assert(seq![a].drop_last() =~= Seq::<Seq<u8>>::empty());
    assert(flatten(Seq::<Seq<u8>>::empty()) == Seq::<u8>::empty());
    assert(flatten(seq![a]) =~= a);
}

/// Joining a piece followed by more pieces.
pub proof fn lemma_flatten_prepend(a: Seq<u8>, rest: Seq<Seq<u8>>)
    ensures
        flatten(seq![a] + rest) == a + flatten(rest),
    decreases rest.len(),
{
    if rest.len() == 0 {
        assert(seq![a] + rest =~= seq![a]);
        lemma_flatten_single(a);
        assert(flatten(rest) =~= Seq::<u8>::empty());
    } else {
        lemma_flatten_prepend(a, rest.drop_last());
        assert((seq![a] + rest).drop_last() =~= seq![a] + rest.drop_last());
        assert(a + flatten(rest.drop_last()) + rest.last() =~= a + (flatten(rest.drop_last())
            + rest.last()));
    }
}

/// Every piece is non-empty and at most `mtu` bytes when the MTU is positive.
pub proof fn lemma_chunks_sizes(p: Seq<u8>, mtu: nat)
    requires
        mtu > 0,
    ensures
        forall|k: int|
            0 <= k < chunks(p, mtu).len() ==> 0 < #[trigger] chunks(p, mtu)[k].len() <= mtu,
    decreases p.len(),
{
    if p.len() > mtu {
        lemma_chunks_sizes(p.skip(mtu as int), mtu);
        let cs = chunks(p, mtu);
        assert forall|k: int| 0 <= k < cs.len() implies 0 < #[trigger] cs[k].len() <= mtu by {
            if k > 0 {
                assert(cs[k] == chunks(p.skip(mtu as int), mtu)[k - 1]);
            }
        }
    }
}

/// The bytes of a received piece, if any.
pub open spec fn piece_view(o: Option<Vec<u8>>) -> Option<Seq<u8>> {
    match o {
        Some(v) => Some(v@),
        None => None,
    }
}

/// Whether every piece has been received.
pub open spec fn all_received(parts: Seq<Option<Seq<u8>>>) -> bool {
    forall|k: int| 0 <= k < parts.len() ==> #[trigger] parts[k] is Some
}

/// The received pieces joined in order; missing ones contribute nothing.
pub open spec fn joined(parts: Seq<Option<Seq<u8>>>) -> Seq<u8>
    decreases parts.len(),
{
    if parts.len() == 0 {
        Seq::empty()
    } else {
        joined(parts.drop_last()) + match parts.last() {
            Some(b) => b,
            None => Seq::empty(),
        }
    }
}

/// The pieces of a fragmented payload received so far.
pub struct ReassemblyState {
    pub fragment_count: u16,
    pub received: Vec<Option<Vec<u8>>>,
    pub first_seen: Instant,
    pub timeout: Duration,
}

impl ReassemblyState {
    /// The received pieces, by index.
    pub open spec fn parts(&self) -> Seq<Option<Seq<u8>>> {
        self.received@.map_values(|o: Option<Vec<u8>>| piece_view(o))
    }

    /// Whether the state has outlived its timeout at `now`.
    pub open spec fn expired_at(&self, now: Instant) -> bool {
        elapsed_nanos(now, self.first_seen) > self.timeout.nanos
    }

    /// A state waiting for `count` pieces, none received yet, first seen now.
    pub fn new(count: u16, timeout: Duration) -> (r: Self)
        ensures
            r.fragment_count == count,
            r.timeout == timeout,
            r.parts() == Seq::new(count as nat, |k: int| None::<Seq<u8>>),
    {
        let mut received: Vec<Option<Vec<u8>>> = Vec::new();
        let mut k: u16 = 0;
        while k < count
            invariant
                k <= count,
                received@.len() == k,
                forall|m: int| 0 <= m < k ==> #[trigger] received@[m] is None,
            decreases count - k,
        {
            received.push(None);
            k = k + 1;
        }
        let r = ReassemblyState { fragment_count: count, received, first_seen: Instant::now(), timeout };
        assert(r.parts() =~= Seq::new(count as nat, |k: int| None::<Seq<u8>>));
        r
    }

    /// Records piece `index`; an index past the piece count is ignored.
    pub fn insert(&mut self, index: usize, data: Vec<u8>)
        ensures
            final(self).fragment_count == old(self).fragment_count,
            final(self).first_seen == old(self).first_seen,
            final(self).timeout == old(self).timeout,
            final(self).parts() == if index < old(self).parts().len() {
                old(self).parts().update(index as int, Some(data@))
            } else {
                old(self).parts()
            },
    {
        if index < self.received.len() {
            let ghost d = data@;
            self.received[index] = Some(data);
            assert(self.parts() =~= old(self).parts().update(index as int, Some(d)));
        }
    }

    /// Whether every piece has been received.
    pub fn is_complete(&self) -> (r: bool)
        ensures
            r == all_received(self.parts()),
    {
        let mut k: usize = 0;
        while k < self.received.len()
            invariant
                k <= self.received@.len(),
                forall|m: int| 0 <= m < k ==> #[trigger] self.parts()[m] is Some,
            decreases self.received@.len() - k,
        {
            if self.received[k].is_none() {
                assert(self.parts()[k as int] is None);
                return false;
            }
            k = k + 1;
        }
        true
    }

    /// The received pieces joined in order.
    pub fn reassemble(&self) -> (r: Vec<u8>)
        ensures
            r@ == joined(self.parts()),
    {
        let mut out: Vec<u8> = Vec::new();
        let mut k: usize = 0;
        while k < self.received.len()
            invariant
                k <= self.received@.len(),
                out@ == joined(self.parts().take(k as int)),
            decreases self.received@.len() - k,
        {
            assert(self.parts().take(k + 1).drop_last() =~= self.parts().take(k as int));
            match &self.received[k] {
                Some(p) => {
                    crate::byte_stream::push_slice(&mut out, p.as_slice());
                },
                None => {
                    assert(out@ + Seq::<u8>::empty() =~= out@);
                },
            }
            k = k + 1;
        }
        assert(self.parts().take(self.received@.len() as int) =~= self.parts());
        out
    }
}

/// The pieces of every payload being reassembled, by fragment id.
pub open spec fn parts_map(m: Map<u32, ReassemblyState>) -> Map<u32, Seq<Option<Seq<u8>>>> {
    m.map_values(|st: ReassemblyState| st.parts())
}

/// Effect of offering piece `idx` of payload `fid` (of `count` pieces) on the
/// pieces being reassembled, and the payload completed by it, if any. A
/// completed payload is dropped from the map.
pub open spec fn offer_parts(
    m: Map<u32, Seq<Option<Seq<u8>>>>,
    fid: u32,
    idx: u16,
    count: u16,
    piece: Seq<u8>,
) -> (Map<u32, Seq<Option<Seq<u8>>>>, Option<Seq<u8>>) {
    let before = if m.contains_key(fid) {
        m[fid]
    } else {
        Seq::new(count as nat, |k: int| None::<Seq<u8>>)
    };
    let after = if (idx as int) < before.len() {
        before.update(idx as int, Some(piece))
    } else {
        before
    };
    if all_received(after) {
        (m.remove(fid), Some(joined(after)))
    } else {
        (m.insert(fid, after), None)
    }
}

/// Effect of offering a packet: only packets with all three fragment fields
/// take part.
pub open spec fn offer_model(m: Map<u32, Seq<Option<Seq<u8>>>>, pkt: PacketModel) -> (Map<
    u32,
    Seq<Option<Seq<u8>>>,
>, Option<Seq<u8>>) {
    match (pkt.fragment_id, pkt.fragment_index, pkt.fragment_count) {
        (Some(fid), Some(idx), Some(count)) => offer_parts(m, fid, idx, count, pkt.payload),
        _ => (m, None),
    }
}

/// The states of `m` that have not outlived their timeout at `now`.
pub open spec fn without_expired(m: Map<u32, ReassemblyState>, now: Instant) -> Map<u32, ReassemblyState> {
    Map::new(|k: u32| m.contains_key(k) && !m[k].expired_at(now), |k: u32| m[k])
}

/// Reassembles fragmented payloads from their packets.
pub struct Reassembler {
    pub map: HashMap<u32, ReassemblyState>,
    pub timeout: Duration,
}

impl Reassembler {
    /// An empty reassembler whose states expire after `timeout`.
    pub fn new(timeout: Duration) -> (r: Self)
        ensures
            r.map@ == Map::<u32, ReassemblyState>::empty(),
            r.timeout == timeout,
    {
        Reassembler { map: HashMap::new(), timeout }
    }

    /// Offers a packet. When it completes its payload, the payload is returned
    /// and forgotten; states of other payloads are untouched, and a kept state
    /// keeps its first-seen time and timeout (a new one gets the reassembler's
    /// timeout).
    pub fn offer(&mut self, pkt: &PRUDPPacket) -> (r: Option<Vec<u8>>)
        ensures
            final(self).timeout == old(self).timeout,
            ({
                let (m2, out) = offer_model(parts_map(old(self).map@), pkt@);
                &&& parts_map(final(self).map@) == m2
                &&& match r {
                    Some(v) => out == Some(v@),
                    None => out is None,
                }
            }),
            match (pkt.fragment_id, pkt.fragment_index, pkt.fragment_count) {
                (Some(fid), Some(_), Some(count)) => {
                    &&& final(self).map@.remove(fid) == old(self).map@.remove(fid)
                    &&& final(self).map@.contains_key(fid) ==> if old(self).map@.contains_key(
                        fid,
                    ) {
                        final(self).map@[fid].first_seen == old(self).map@[fid].first_seen
                            && final(self).map@[fid].timeout == old(self).map@[fid].timeout
                            && final(self).map@[fid].fragment_count
                            == old(self).map@[fid].fragment_count
                    } else {
                        final(self).map@[fid].timeout == old(self).timeout
                            && final(self).map@[fid].fragment_count == count
                    }
                },
                _ => final(self).map@ == old(self).map@,
            },
    {
        match (pkt.fragment_id, pkt.fragment_index, pkt.fragment_count) {
            (Some(fid), Some(idx), Some(count)) => {
                let ghost m0 = old(self).map@;
                let mut state = match self.map.remove(&fid) {
                    Some(st) => st,
                    None => ReassemblyState::new(count, self.timeout),
                };
                state.insert(idx as usize, pkt.payload.clone());
                if state.is_complete() {
                    let data = state.reassemble();
                    assert(parts_map(self.map@) =~= parts_map(m0).remove(fid));
                    return Some(data);
                }
                self.map.insert(fid, state);
                assert(parts_map(self.map@) =~= parts_map(m0).insert(fid, state.parts()));
                assert(self.map@.remove(fid) =~= m0.remove(fid));
                None
            },
            _ => None,
        }
    }

    /// Forgets every state that has outlived its timeout at `now`.
    pub fn purge_expired(&mut self, now: Instant)
        ensures
            final(self).timeout == old(self).timeout,
            final(self).map@ == without_expired(old(self).map@, now),
    {
        let ghost m0 = self.map@;
        let mut stale: Vec<u32> = Vec::new();
        for k in it: self.map.keys()
            invariant
                self.map@ == m0,
                forall|x: u32| #[trigger] stale@.contains(x) ==> m0.contains_key(x) && m0[x].expired_at(now),
                forall|j: int|
                    0 <= j < it.index() ==> m0[*it.seq()[j]].expired_at(now) ==> stale@.contains(
                        *#[trigger] it.seq()[j],
                    ),
        {
            let st = self.map.get(k).unwrap();
            assert(*st == m0[*k]);
            if now.duration_since(st.first_seen).nanos > st.timeout.nanos {
                stale.push(*k);
            }
        }
        let mut i: usize = 0;
        while i < stale.len()
            invariant
                i <= stale@.len(),
                self.timeout == old(self).timeout,
                forall|x: u32| #[trigger] stale@.contains(x) ==> m0.contains_key(x) && m0[x].expired_at(now),
                forall|x: u32| m0.contains_key(x) && m0[x].expired_at(now) ==> #[trigger] stale@.contains(x),
                self.map@ == Map::new(
                    |k: u32| m0.contains_key(k) && !stale@.take(i as int).contains(k),
                    |k: u32| m0[k],
                ),
            decreases stale@.len() - i,
        {
            let k = stale[i];
            self.map.remove(&k);
            assert(stale@.take(i + 1) =~= stale@.take(i as int).push(k));
            i = i + 1;
            assert(self.map@ =~= Map::new(
                |x: u32| m0.contains_key(x) && !stale@.take(i as int).contains(x),
                |x: u32| m0[x],
            ));
        }
        assert(stale@.take(stale@.len() as int) =~= stale@);
        assert(self.map@ =~= without_expired(m0, now));
    }

    /// Forgets every state that has outlived its timeout, by the clock.
    pub fn purge_timeouts(&mut self)
        ensures
            final(self).timeout == old(self).timeout,
            exists|now: Instant| final(self).map@ == #[trigger] without_expired(old(self).map@, now),
    {
        let now = Instant::now();
        self.purge_expired(now);
    }
}

/// Offering packets one after the other: the final pieces map and what the
/// last offer returned.
pub open spec fn offer_all(m: Map<u32, Seq<Option<Seq<u8>>>>, pkts: Seq<PacketModel>) -> (Map<
    u32,
    Seq<Option<Seq<u8>>>,
>, Option<Seq<u8>>)
    decreases pkts.len(),
{
    if pkts.len() == 0 {
        (m, None)
    } else {
        offer_model(offer_all(m, pkts.drop_last()).0, pkts.last())
    }
}

/// The first `j` of `n` pieces received.
pub open spec fn received_prefix(cs: Seq<Seq<u8>>, j: int) -> Seq<Option<Seq<u8>>> {
    Seq::new(cs.len(), |i: int| if i < j { Some(cs[i]) } else { None::<Seq<u8>> })
}

/// Joining all pieces received is joining the pieces.
pub proof fn lemma_joined_all(cs: Seq<Seq<u8>>)
    ensures
        joined(received_prefix(cs, cs.len() as int)) == flatten(cs),
    decreases cs.len(),
{
    if cs.len() > 0 {
        lemma_joined_all(cs.drop_last());
        assert(received_prefix(cs, cs.len() as int).drop_last() =~= received_prefix(
            cs.drop_last(),
            cs.drop_last().len() as int,
        ));
    }
}

/// Offering the first `j + 1` packets of a fragmented payload (fewer than all)
/// keeps the first `j + 1` pieces and returns nothing; offering all of them
/// returns the payload and leaves the map as it was.
pub proof fn lemma_offer_prefix(
    m: Map<u32, Seq<Option<Seq<u8>>>>,
    base: PRUDPHeader,
    p: Seq<u8>,
    mtu: nat,
    fid: u32,
    j: int,
)
    requires
        !m.contains_key(fid),
        1 <= chunks(p, mtu).len() <= 65535,
        0 <= j < chunks(p, mtu).len(),
    ensures
        ({
            let cs = chunks(p, mtu);
            let pkts = Seq::new(cs.len(), |k: int| fragment_model(base, p, mtu, fid, k));
            let r = offer_all(m, pkts.take(j + 1));
            if j + 1 < cs.len() {
                r == (m.insert(fid, received_prefix(cs, j + 1)), None::<Seq<u8>>)
            } else {
                r == (m, Some(flatten(cs)))
            }
        }),
    decreases j,
{
    let cs = chunks(p, mtu);
    let n = cs.len();
    let pkts = Seq::new(n, |k: int| fragment_model(base, p, mtu, fid, k));
    let prev = if j == 0 {
        m
    } else {
        m.insert(fid, received_prefix(cs, j))
    };
    if j == 0 {
        assert(pkts.take(1).drop_last() =~= Seq::<PacketModel>::empty());
    } else {
        lemma_offer_prefix(m, base, p, mtu, fid, j - 1);
        assert(pkts.take(j + 1).drop_last() =~= pkts.take(j));
    }
    assert(offer_all(m, pkts.take(j + 1)) == offer_model(prev, pkts[j]));
    let before = if prev.contains_key(fid) {
        prev[fid]
    } else {
        Seq::new((n % 65536) as u16 as nat, |k: int| None::<Seq<u8>>)
    };
    assert(before =~= received_prefix(cs, j));
    let after = received_prefix(cs, j + 1);
    assert(before.update(j, Some(cs[j])) =~= after);
    if j + 1 < n {
        assert(after[n - 1] is None);
        assert(!all_received(after));
    } else {
        assert(all_received(after));
        assert(prev.remove(fid) =~= m);
        lemma_joined_all(cs);
    }
}

/// Offering, in order, all the packets that carry the pieces of a payload to
/// a reassembler that holds nothing under their fragment id returns nothing
/// until the last one, which returns the payload; the reassembler then holds
/// what it held before.
pub proof fn lemma_fragments_reassemble(
    m: Map<u32, Seq<Option<Seq<u8>>>>,
    base: PRUDPHeader,
    p: Seq<u8>,
    mtu: nat,
    fid: u32,
)
    requires
        !m.contains_key(fid),
        1 <= chunks(p, mtu).len() <= 65535,
    ensures
        ({
            let cs = chunks(p, mtu);
            let pkts = Seq::new(cs.len(), |k: int| fragment_model(base, p, mtu, fid, k));
            &&& offer_all(m, pkts) == (m, Some(p))
            &&& forall|j: int| 0 <= j < cs.len() - 1 ==> (#[trigger] offer_all(m, pkts.take(j + 1))).1 is None
        }),
{
    let cs = chunks(p, mtu);
    let n = cs.len();
    let pkts = Seq::new(n, |k: int| fragment_model(base, p, mtu, fid, k));
    lemma_offer_prefix(m, base, p, mtu, fid, n - 1);
    assert(pkts.take(n as int) =~= pkts);
    lemma_chunks_flatten(p, mtu);
    assert forall|j: int| 0 <= j < n - 1 implies (#[trigger] offer_all(m, pkts.take(j + 1))).1 is None by {
        lemma_offer_prefix(m, base, p, mtu, fid, j);
    }
}

} // verus!
