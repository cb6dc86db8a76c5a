use vstd::prelude::*;
use crate::byte_stream::{
    from_le16, from_le32, le16, le32, lemma_le16_roundtrip, lemma_le32_roundtrip, push_slice,
    push_u16_le, push_u32_le,
};
use crate::error::{Error, Result};
use crate::hpp::packet::is_other_error;

verus! {

/// Bits of the flags byte of a PRUDP packet header; a header holds them in a
/// `u8`.
pub struct Flags;

/// The six flag bits that a header can carry.
pub open spec fn known_flag_bits() -> u8 {
    0x3Fu8
}

/// Whether `flag` is set in `bits`.
pub open spec fn has_flag(bits: u8, flag: u8) -> bool {
    bits & flag == flag
}

impl Flags {
    pub const ACK: u8 = 0x01;
    pub const RELIABLE: u8 = 0x02;
    pub const NEED_ACK: u8 = 0x04;
    pub const HAS_SIZE: u8 = 0x08;
    pub const MULTI_ACK: u8 = 0x10;
    pub const SIGNED: u8 = 0x20;

    /// The known flags of `bits`; unknown bits are dropped.
    pub fn from_bits_truncate(bits: u8) -> (f: u8)
        ensures
            f == bits & known_flag_bits(),
    {
        bits & 0x3F
    }

    /// Whether every flag of `flag` is set in `bits`.
    pub fn contains(bits: u8, flag: u8) -> (r: bool)
        ensures
            r == has_flag(bits, flag),
    {
        bits & flag == flag
    }
}

/// Protocol version of a packet.
#[derive(Debug, Clone, Copy, PartialEq, Eq)]
pub enum Version {
    V1,
}

impl Version {
    /// The version number on the wire.
    pub fn as_u8(&self) -> (v: u8)
        ensures
            v == 1,
    {
        1
    }
}

/// Kind of a packet.
#[derive(Debug, Clone, Copy, PartialEq, Eq)]
pub enum PacketType {
    Syn,
    Connect,
    Data,
    Disconnect,
    Ping,
    Ack,
    Nak,
}

impl PacketType {
    /// The type number on the wire.
    pub open spec fn spec_code(self) -> u16 {
        match self {
            PacketType::Syn => 0,
            PacketType::Connect => 1,
            PacketType::Data => 2,
            PacketType::Disconnect => 3,
            PacketType::Ping => 4,
            PacketType::Ack => 5,
            PacketType::Nak => 6,
        }
    }

    /// The type number on the wire.
    pub fn as_u16(&self) -> (v: u16)
        ensures
            v == self.spec_code(),
    {
        match self {
            PacketType::Syn => 0,
            PacketType::Connect => 1,
            PacketType::Data => 2,
            PacketType::Disconnect => 3,
            PacketType::Ping => 4,
            PacketType::Ack => 5,
            PacketType::Nak => 6,
        }
    }
}

/// Header of a PRUDP packet. `payload_len` is written when present and read
/// when the `HAS_SIZE` flag is set.
#[derive(Debug, Clone, Copy)]
pub struct PRUDPHeader {
    pub version: u8,
    pub packet_type: u16,
    pub flags: u8,
    pub session_id: u16,
    pub sequence_id: u16,
    pub ack_id: u16,
    pub payload_len: Option<usize>,
}

/// A PRUDP packet; the fragment fields describe the packet's place in a
/// fragmented payload.
#[derive(Debug)]
pub struct PRUDPPacket {
    pub header: PRUDPHeader,
    pub payload: Vec<u8>,
    pub fragment_id: Option<u32>,
    pub fragment_index: Option<u16>,
    pub fragment_count: Option<u16>,
}

/// Mathematical model of a packet.
pub struct PacketModel {
    pub header: PRUDPHeader,
    pub payload: Seq<u8>,
    pub fragment_id: Option<u32>,
    pub fragment_index: Option<u16>,
    pub fragment_count: Option<u16>,
}

impl View for PRUDPPacket {
    type V = PacketModel;

    open spec fn view(&self) -> PacketModel {
        PacketModel {
            header: self.header,
            payload: self.payload@,
            fragment_id: self.fragment_id,
            fragment_index: self.fragment_index,
            fragment_count: self.fragment_count,
        }
    }
}

/// The fixed part of the header: version, type, flags, session, sequence and
/// ack ids.
pub open spec fn fixed_header_bytes(h: PRUDPHeader) -> Seq<u8> {
    seq![h.version] + le16(h.packet_type) + seq![h.flags] + le16(h.session_id) + le16(
        h.sequence_id,
    ) + le16(h.ack_id)
}

/// The size field: the payload length as a little-endian `u32` (truncated),
/// when present.
pub open spec fn size_field_bytes(h: PRUDPHeader) -> Seq<u8> {
    match h.payload_len {
        Some(l) => le32((l as int % 4294967296) as u32),
        None => Seq::empty(),
    }
}

/// The fragment marker `0xF0` followed by id, index and count when the
/// packet has a fragment count; else the single byte `0x00`.
pub open spec fn fragment_field_bytes(m: PacketModel) -> Seq<u8> {
    match m.fragment_count {
        Some(c) => seq![0xF0u8] + le32(
            match m.fragment_id {
                Some(x) => x,
                None => 0,
            },
        ) + le16(
            match m.fragment_index {
                Some(x) => x,
                None => 0,
            },
        ) + le16(c),
        None => seq![0x00u8],
    }
}

/// Wire form of a packet.
pub open spec fn packet_encoding(m: PacketModel) -> Seq<u8> {
    fixed_header_bytes(m.header) + size_field_bytes(m.header) + fragment_field_bytes(m) + m.payload
}

/// Decoding of a packet from `s`, or the text of the error.
pub open spec fn packet_decoding(s: Seq<u8>) -> std::result::Result<PacketModel, Seq<char>> {
    if s.len() < 10 {
        Err("packet too small"@)
    } else {
        let flags = s[3] & known_flag_bits();
        let sized = has_flag(flags, Flags::HAS_SIZE);
        if sized && s.len() < 14 {
            Err("missing size"@)
        } else {
            let payload_len: Option<usize> = if sized {
                Some(from_le32(s.skip(10)) as usize)
            } else {
                None
            };
            let off: int = if sized {
                14
            } else {
                10
            };
            let fragmented = s.len() > off && s[off] == 0xF0;
            if fragmented && s.len() < off + 9 {
                Err("incomplete fragment header"@)
            } else {
                let poff: int = if s.len() > off {
                    if fragmented {
                        off + 9
                    } else {
                        off + 1
                    }
                } else {
                    off
                };
                let truncated = match payload_len {
                    Some(l) => s.len() < poff + l,
                    None => false,
                };
                if truncated {
                    Err("payload truncated"@)
                } else {
                    Ok(
                        PacketModel {
                            header: PRUDPHeader {
                                version: s[0],
                                packet_type: from_le16(s.skip(1)),
                                flags,
                                session_id: from_le16(s.skip(4)),
                                sequence_id: from_le16(s.skip(6)),
                                ack_id: from_le16(s.skip(8)),
                                payload_len,
                            },
                            payload: match payload_len {
                                Some(l) => s.subrange(poff, poff + l),
                                None => s.skip(poff),
                            },
                            fragment_id: if fragmented {
                                Some(from_le32(s.skip(off + 1)))
                            } else {
                                None
                            },
                            fragment_index: if fragmented {
                                Some(from_le16(s.skip(off + 5)))
                            } else {
                                None
                            },
                            fragment_count: if fragmented {
                                Some(from_le16(s.skip(off + 7)))
                            } else {
                                None
                            },
                        },
                    )
                }
            }
        }
    }
}

/// A packet that reads back as itself: only known flags, `HAS_SIZE` set
/// exactly when the size is present and then equal to the payload length
/// (which fits in 32 bits), and the fragment fields all present or all absent.
pub open spec fn packet_well_formed(m: PacketModel) -> bool {
    &&& m.header.flags & known_flag_bits() == m.header.flags
    &&& has_flag(m.header.flags, Flags::HAS_SIZE) <==> m.header.payload_len is Some
    &&& m.header.payload_len matches Some(l) ==> l == m.payload.len() && l < 4294967296
    &&& m.fragment_count is Some <==> m.fragment_id is Some
    &&& m.fragment_count is Some <==> m.fragment_index is Some
}

fn read16(s: &[u8], k: usize) -> (v: u16)
    requires
        k + 2 <= s@.len(),
    ensures
        v == from_le16(s@.skip(k as int)),
{
    s[k] as u16 + 256 * (s[k + 1] as u16)
}

fn read32(s: &[u8], k: usize) -> (v: u32)
    requires
        k + 4 <= s@.len(),
    ensures
        v == from_le32(s@.skip(k as int)),
{
    s[k] as u32 + 256 * (s[k + 1] as u32) + 65536 * (s[k + 2] as u32) + 16777216 * (s[k
        + 3] as u32)
}

impl PRUDPPacket {
    /// A packet with the same fields.
    pub fn duplicate(&self) -> (r: Self)
        ensures
            r@ == self@,
    {
        PRUDPPacket {
            header: self.header,
            payload: self.payload.clone(),
            fragment_id: self.fragment_id,
            fragment_index: self.fragment_index,
            fragment_count: self.fragment_count,
        }
    }

    /// The wire form of the packet. Always succeeds.
    pub fn to_bytes(&self) -> (r: Result<Vec<u8>>)
        ensures
            r matches Ok(b) && b@ == packet_encoding(self@),
    {
        let mut buf: Vec<u8> = Vec::new();
        buf.push(self.header.version);
        push_u16_le(&mut buf, self.header.packet_type);
        buf.push(self.header.flags);
        push_u16_le(&mut buf, self.header.session_id);
        push_u16_le(&mut buf, self.header.sequence_id);
        push_u16_le(&mut buf, self.header.ack_id);
        assert(buf@ =~= fixed_header_bytes(self.header));
        if let Some(len) = self.header.payload_len {
            push_u32_le(&mut buf, (len as u64 % 4294967296) as u32);
        }
        assert(buf@ =~= fixed_header_bytes(self.header) + size_field_bytes(self.header));
        let ghost before = buf@;
        if let Some(count) = self.fragment_count {
            buf.push(0xF0);
            let id = match self.fragment_id {
                Some(x) => x,
                None => 0,
            };
            let idx = match self.fragment_index {
                Some(x) => x,
                None => 0,
            };
            push_u32_le(&mut buf, id);
            push_u16_le(&mut buf, idx);
            push_u16_le(&mut buf, count);
        } else {
            buf.push(0x00);
        }
        assert(buf@ =~= before + fragment_field_bytes(self@));
        push_slice(&mut buf, self.payload.as_slice());
        Ok(buf)
    }

    /// Reads a packet from `data`; fails with "packet too small", "missing
    /// size", "incomplete fragment header" or "payload truncated" as
    /// `packet_decoding` describes.
    pub fn from_bytes(data: &[u8]) -> (r: Result<Self>)
        ensures
            match packet_decoding(data@) {
                Ok(m) => r matches Ok(p) && p@ == m,
                Err(text) => r matches Err(e) && is_other_error(e, text),
            },
    {
        let n = data.len();
        if n < 10 {
            return Err(Error::Other(String::from_str("packet too small")));
        }
        let version = data[0];
        let packet_type = read16(data, 1);
        let flags = Flags::from_bits_truncate(data[3]);
        let session_id = read16(data, 4);
        let sequence_id = read16(data, 6);
        let ack_id = read16(data, 8);
        let mut offset: usize = 10;
        let payload_len: Option<usize> = if Flags::contains(flags, Flags::HAS_SIZE) {
            if n < 14 {
                return Err(Error::Other(String::from_str("missing size")));
            }
            let v = read32(data, 10) as usize;
            offset = 14;
            Some(v)
        } else {
            None
        };
        let ghost off = offset as int;
        let mut fragment_id: Option<u32> = None;
        let mut fragment_index: Option<u16> = None;
        let mut fragment_count: Option<u16> = None;
        if n > offset {
            let marker = data[offset];
            offset = offset + 1;
            if marker == 0xF0 {
                if n - offset < 8 {
                    return Err(Error::Other(String::from_str("incomplete fragment header")));
                }
                fragment_id = Some(read32(data, offset));
                fragment_index = Some(read16(data, offset + 4));
                fragment_count = Some(read16(data, offset + 6));
                offset = offset + 8;
            }
        }
        let payload: Vec<u8> = match payload_len {
            Some(len) => {
                if n - offset < len {
                    return Err(Error::Other(String::from_str("payload truncated")));
                }
                copy_range(data, offset, offset + len)
            },
            None => copy_range(data, offset, n),
        };
        Ok(PRUDPPacket {
            header: PRUDPHeader {
                version,
                packet_type,
                flags,
                session_id,
                sequence_id,
                ack_id,
                payload_len,
            },
            payload,
            fragment_id,
            fragment_index,
            fragment_count,
        })
    }
}

/// The bytes of `s` from `lo` to `hi`.
pub(crate) fn copy_range(s: &[u8], lo: usize, hi: usize) -> (r: Vec<u8>)
    requires
        lo <= hi <= s@.len(),
    ensures
        r@ == s@.subrange(lo as int, hi as int),
{
    let mut out: Vec<u8> = Vec::new();
    let mut k: usize = lo;
    while k < hi
        invariant
            lo <= k <= hi,
            hi <= s@.len(),
            out@ == s@.subrange(lo as int, k as int),
        decreases hi - k,
    {
        out.push(s[k]);
        k = k + 1;
        assert(out@ =~= s@.subrange(lo as int, k as int));
    }
    out
}

/// Reading back the wire form of a well-formed packet gives the packet back.
#[verifier::rlimit(60)]
#[verifier::spinoff_prover]
pub proof fn lemma_packet_roundtrip(m: PacketModel)
    requires
        packet_well_formed(m),
    ensures
        packet_decoding(packet_encoding(m)) == Ok::<PacketModel, Seq<char>>(m),
{
    let h = m.header;
    let s = packet_encoding(m);
    let fixed = fixed_header_bytes(h);
    let size = size_field_bytes(h);
    let frag = fragment_field_bytes(m);
    lemma_le16_roundtrip(h.packet_type);
    lemma_le16_roundtrip(h.session_id);
    lemma_le16_roundtrip(h.sequence_id);
    lemma_le16_roundtrip(h.ack_id);
    assert(fixed.len() == 10);
    assert(s =~= fixed + (size + frag + m.payload));
    assert(s.subrange(0, 10) =~= fixed);
    assert(s[3] == h.flags);
    assert(s.skip(1).subrange(0, 2) =~= le16(h.packet_type));
    assert(s.skip(4).subrange(0, 2) =~= le16(h.session_id));
    assert(s.skip(6).subrange(0, 2) =~= le16(h.sequence_id));
    assert(s.skip(8).subrange(0, 2) =~= le16(h.ack_id));
    let off: int = if h.payload_len is Some {
        14
    } else {
        10
    };
    if let Some(l) = h.payload_len {
        lemma_le32_roundtrip(l as u32);
        assert(size =~= le32(l as u32));
        assert(s.skip(10).subrange(0, 4) =~= le32(l as u32));
    }
    assert(size.len() == off - 10);
    assert(s.skip(off) =~= frag + m.payload);
    if let Some(c) = m.fragment_count {
        let id = m.fragment_id->0;
        let idx = m.fragment_index->0;
        lemma_le32_roundtrip(id);
        lemma_le16_roundtrip(idx);
        lemma_le16_roundtrip(c);
        assert(frag.len() == 9);
        assert(s[off] == 0xF0);
        assert(s.skip(off + 1).subrange(0, 4) =~= le32(id));
        assert(s.skip(off + 5).subrange(0, 2) =~= le16(idx));
        assert(s.skip(off + 7).subrange(0, 2) =~= le16(c));
        assert(s.skip(off + 9) =~= m.payload);
    } else {
        assert(frag.len() == 1);
        assert(s[off] == 0x00);
        assert(s.skip(off + 1) =~= m.payload);
    }
    let poff = off + frag.len();
    if let Some(l) = h.payload_len {
        assert(s.subrange(poff, poff + l) =~= m.payload);
    }
}

/// In the wire form of a packet with a fragment count, the fragment header
/// sits after the 10 fixed bytes (14 with a size field): the marker `0xF0`,
/// the fragment id (4 bytes), then the index (2 bytes), then the count (2
/// bytes), all little-endian, then the payload.
pub proof fn lemma_fragment_header_layout(m: PacketModel)
    requires
        m.fragment_count is Some,
    ensures
        ({
            let e = packet_encoding(m);
            let off: int = if m.header.payload_len is Some { 14 } else { 10 };
            let id = match m.fragment_id { Some(x) => x, None => 0 };
            let idx = match m.fragment_index { Some(x) => x, None => 0 };
            let c = m.fragment_count->0;
            &&& e.len() == off + 9 + m.payload.len()
            &&& e[off] == 0xF0
            &&& e[off + 1] == id % 256 && e[off + 2] == (id / 256) % 256
            &&& e[off + 3] == (id / 65536) % 256 && e[off + 4] == id / 16777216
            &&& e[off + 5] == idx % 256 && e[off + 6] == idx / 256
            &&& e[off + 7] == c % 256 && e[off + 8] == c / 256
            &&& e.skip(off + 9) == m.payload
        }),
{
    let e = packet_encoding(m);
    let off: int = if m.header.payload_len is Some { 14 } else { 10 };
    assert(fixed_header_bytes(m.header).len() == 10);
    assert((fixed_header_bytes(m.header) + size_field_bytes(m.header)).len() == off);
    assert(e =~= (fixed_header_bytes(m.header) + size_field_bytes(m.header)) + fragment_field_bytes(m) + m.payload);
    assert(e.skip(off + 9) =~= m.payload);
}

} // verus!
