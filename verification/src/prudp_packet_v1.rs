use vstd::prelude::*;
use crate::byte_stream::{from_le16, from_le32, le16, le32, lemma_le16_roundtrip, lemma_le32_roundtrip, ByteStreamOut};
use crate::byte_stream_in::ByteStreamIn;
use crate::byte_stream::is_underflow;
use crate::error::{is_nex_error, Error, Result};
use crate::prudp_packet::{is_zero_packet, zero16, PRUDPPacket};
use crate::prudp_v1_settings::{connection_signature_of, packet_signature_of, PRUDPV1Settings};
use crate::types::address::SocketAddress;
use crate::text::{decimal, push_decimal};

verus! {

/// A PRUDP v1 packet: the common fields and those of the v1 header and options.
#[derive(Debug, Clone)]
pub struct PRUDPPacketV1 {
    pub base: PRUDPPacket,
    pub options_length: u8,
    pub payload_length: u16,
    pub minor_version: u32,
    pub supported_functions: u32,
    pub maximum_substream_id: u8,
    pub initial_unreliable_sequence_id: u16,
}

/// Mathematical model of a v1 packet.
pub struct V1Model {
    pub version: u8,
    pub source_virtual_port: u8,
    pub destination_virtual_port: u8,
    pub packet_type: u16,
    pub flags: u16,
    pub session_id: u8,
    pub substream_id: u8,
    pub sequence_id: u16,
    pub signature: Seq<u8>,
    pub connection_signature: Seq<u8>,
    pub fragment_id: u8,
    pub payload: Seq<u8>,
    pub options_length: u8,
    pub payload_length: u16,
    pub minor_version: u32,
    pub supported_functions: u32,
    pub maximum_substream_id: u8,
    pub initial_unreliable_sequence_id: u16,
}

impl View for PRUDPPacketV1 {
    type V = V1Model;

    open spec fn view(&self) -> V1Model {
        V1Model {
            version: self.base.version,
            source_virtual_port: self.base.source_virtual_port,
            destination_virtual_port: self.base.destination_virtual_port,
            packet_type: self.base.packet_type,
            flags: self.base.flags,
            session_id: self.base.session_id,
            substream_id: self.base.substream_id,
            sequence_id: self.base.sequence_id,
            signature: self.base.signature@,
            connection_signature: self.base.connection_signature@,
            fragment_id: self.base.fragment_id,
            payload: self.base.payload@,
            options_length: self.options_length,
            payload_length: self.payload_length,
            minor_version: self.minor_version,
            supported_functions: self.supported_functions,
            maximum_substream_id: self.maximum_substream_id,
            initial_unreliable_sequence_id: self.initial_unreliable_sequence_id,
        }
    }
}

/// The model of a packet whose fields are all zero or empty.
pub open spec fn zero_v1() -> V1Model {
    V1Model {
        version: 0,
        source_virtual_port: 0,
        destination_virtual_port: 0,
        packet_type: 0,
        flags: 0,
        session_id: 0,
        substream_id: 0,
        sequence_id: 0,
        signature: zero16(),
        connection_signature: zero16(),
        fragment_id: 0,
        payload: Seq::empty(),
        options_length: 0,
        payload_length: 0,
        minor_version: 0,
        supported_functions: 0,
        maximum_substream_id: 0,
        initial_unreliable_sequence_id: 0,
    }
}

/// Whether a type number is SYN or CONNECT, whose packets carry connection options.
pub open spec fn has_connection_options(t: u16) -> bool {
    t == 0 || t == 1
}

/// The options of a packet: for SYN and CONNECT, option 0 (minor version and
/// supported functions), option 1 (connection signature), for CONNECT option
/// 3 (initial unreliable sequence id), then option 4 (maximum substream id);
/// for DATA, option 2 (fragment id); nothing for other types.
pub open spec fn options_bytes(m: V1Model) -> Seq<u8> {
    if has_connection_options(m.packet_type) {
        seq![0u8, 4u8] + le32(
            ((m.minor_version % 256) + (m.supported_functions % 16777216) * 256) as u32,
        ) + seq![1u8, 16u8] + m.connection_signature + if m.packet_type == 1 {
            seq![3u8, 2u8] + le16(m.initial_unreliable_sequence_id) + seq![
                4u8,
                1u8,
                m.maximum_substream_id,
            ]
        } else {
            seq![4u8, 1u8, m.maximum_substream_id]
        }
    } else if m.packet_type == 2 {
        seq![2u8, 1u8, m.fragment_id]
    } else {
        Seq::empty()
    }
}

/// The type and flags word: flags in the high twelve bits, type in the low four.
pub open spec fn type_and_flags(m: V1Model) -> u16 {
    ((m.flags % 4096) * 16 + m.packet_type % 16) as u16
}

/// The twelve header bytes, with the given options and payload lengths.
pub open spec fn header_bytes(m: V1Model, options_length: u8, payload_length: u16) -> Seq<u8> {
    seq![1u8, options_length] + le16(payload_length) + seq![
        m.source_virtual_port,
        m.destination_virtual_port,
    ] + le16(type_and_flags(m)) + seq![m.session_id, m.substream_id] + le16(m.sequence_id)
}

/// The payload length as written in the header (truncated to 16 bits).
pub open spec fn wire_payload_length(m: V1Model) -> u16 {
    (m.payload.len() % 65536) as u16
}

/// Wire form of a packet: magic `EA D0`, header, signature, options, payload.
pub open spec fn v1_encoding(m: V1Model) -> Seq<u8> {
    seq![0xEAu8, 0xD0u8] + header_bytes(m, options_bytes(m).len() as u8, wire_payload_length(m))
        + m.signature + options_bytes(m) + m.payload
}

/// Option fields read so far.
pub struct OptionFields {
    pub minor_version: u32,
    pub supported_functions: u32,
    pub connection_signature: Seq<u8>,
    pub initial_unreliable_sequence_id: u16,
    pub maximum_substream_id: u8,
    pub fragment_id: u8,
}

/// The option fields of a packet.
pub open spec fn option_fields_of(m: V1Model) -> OptionFields {
    OptionFields {
        minor_version: m.minor_version,
        supported_functions: m.supported_functions,
        connection_signature: m.connection_signature,
        initial_unreliable_sequence_id: m.initial_unreliable_sequence_id,
        maximum_substream_id: m.maximum_substream_id,
        fragment_id: m.fragment_id,
    }
}

/// Reading the options `s` of a packet of type `t` over `acc`; `None` when an
/// option is cut short. Each option is an id and a size byte followed by the
/// value that the id and the type call for; unknown ids carry no value.
pub open spec fn read_options(t: u16, s: Seq<u8>, acc: OptionFields) -> Option<OptionFields>
    decreases s.len(),
{
    if s.len() == 0 {
        Some(acc)
    } else if s.len() < 2 {
        None
    } else {
        let id = s[0];
        let rest = s.skip(2);
        if has_connection_options(t) {
            if id == 0 {
                if rest.len() < 4 {
                    None
                } else {
                    let v = from_le32(rest);
                    read_options(
                        t,
                        rest.skip(4),
                        OptionFields {
                            minor_version: (v % 256) as u32,
                            supported_functions: (v / 256) as u32,
                            ..acc
                        },
                    )
                }
            } else if id == 1 {
                if rest.len() < 16 {
                    None
                } else {
                    read_options(
                        t,
                        rest.skip(16),
                        OptionFields { connection_signature: rest.take(16), ..acc },
                    )
                }
            } else if id == 3 {
                if rest.len() < 2 {
                    None
                } else {
                    read_options(
                        t,
                        rest.skip(2),
                        OptionFields { initial_unreliable_sequence_id: from_le16(rest), ..acc },
                    )
                }
            } else if id == 4 {
                if rest.len() < 1 {
                    None
                } else {
                    read_options(t, rest.skip(1), OptionFields { maximum_substream_id: rest[0], ..acc })
                }
            } else {
                read_options(t, rest, acc)
            }
        } else if t == 2 && id == 2 {
            if rest.len() < 1 {
                None
            } else {
                read_options(t, rest.skip(1), OptionFields { fragment_id: rest[0], ..acc })
            }
        } else {
            read_options(t, rest, acc)
        }
    }
}


/// Decoding of a v1 packet from `s`, or the text of the error.
pub open spec fn v1_decoding(s: Seq<u8>) -> std::result::Result<V1Model, Seq<char>> {
    if s.len() < 2 {
        Err("not enough bytes for magic"@)
    } else if s[0] != 0xEA || s[1] != 0xD0 {
        Err("invalid PRUDPv1 magic"@)
    } else if s.len() - 2 < 12 {
        Err("not enough header bytes"@)
    } else if s[2] != 1 {
        Err("invalid version "@ + decimal(s[2] as nat))
    } else {
        let h = s.skip(2);
        let ol = h[1];
        let pl = from_le16(h.skip(2));
        let tf = from_le16(h.skip(6));
        let t = (tf % 16) as u16;
        let r = h.skip(12);
        if r.len() < 16 {
            Err("not enough bytes for signature"@)
        } else {
            let r2 = r.skip(16);
            if r2.len() < ol {
                Err("not enough option bytes"@)
            } else {
                match read_options(t, r2.take(ol as int), option_fields_of(zero_v1())) {
                    None => Err("underflow"@),
                    Some(o) => {
                        let r3 = r2.skip(ol as int);
                        if r3.len() < pl {
                            Err("not enough payload bytes"@)
                        } else {
                            Ok(
                                V1Model {
                                    version: 1,
                                    source_virtual_port: h[4],
                                    destination_virtual_port: h[5],
                                    packet_type: t,
                                    flags: (tf / 16) as u16,
                                    session_id: h[8],
                                    substream_id: h[9],
                                    sequence_id: from_le16(h.skip(10)),
                                    signature: r.take(16),
                                    connection_signature: o.connection_signature,
                                    fragment_id: o.fragment_id,
                                    payload: r3.take(pl as int),
                                    options_length: ol,
                                    payload_length: pl,
                                    minor_version: o.minor_version,
                                    supported_functions: o.supported_functions,
                                    maximum_substream_id: o.maximum_substream_id,
                                    initial_unreliable_sequence_id: o.initial_unreliable_sequence_id,
                                },
                            )
                        }
                    },
                }
            }
        }
    }
}

/// `r` is the outcome that `v1_decoding` describes for `s`.
pub open spec fn v1_result_matches(r: Result<PRUDPPacketV1>, s: Seq<u8>) -> bool {
    match v1_decoding(s) {
        Ok(m) => r matches Ok(p) && p@ == m,
        Err(text) => r matches Err(e) && is_nex_error(e, -1, text),
    }
}

/// The "invalid version" error for version `v`.
fn invalid_version_error(v: u8) -> (e: Error)
    ensures
        is_nex_error(e, -1, "invalid version "@ + decimal(v as nat)),
{
    let mut message = String::from_str("invalid version ");
    push_decimal(&mut message, v as u32);
    Error::Nex { result_code: -1, message }
}

/// `m` with the option fields of `o`.
pub open spec fn with_options(m: V1Model, o: OptionFields) -> V1Model {
    V1Model {
        minor_version: o.minor_version,
        supported_functions: o.supported_functions,
        connection_signature: o.connection_signature,
        initial_unreliable_sequence_id: o.initial_unreliable_sequence_id,
        maximum_substream_id: o.maximum_substream_id,
        fragment_id: o.fragment_id,
        ..m
    }
}

/// The packets that read back as their decoded form: signatures of 16
/// bytes, flags within 12 bits, a type within 4 bits, a payload that fits in
/// 16 bits and version numbers that fit their option fields.
pub open spec fn v1_well_formed(m: V1Model) -> bool {
    &&& m.signature.len() == 16
    &&& m.connection_signature.len() == 16
    &&& m.flags < 4096
    &&& m.packet_type < 16
    &&& m.payload.len() < 65536
    &&& m.minor_version < 256
    &&& m.supported_functions < 16777216
}

/// The option fields that the wire form of `m` carries; the others are zero.
pub open spec fn carried_options(m: V1Model) -> OptionFields {
    let z = option_fields_of(zero_v1());
    if has_connection_options(m.packet_type) {
        OptionFields {
            minor_version: m.minor_version,
            supported_functions: m.supported_functions,
            connection_signature: m.connection_signature,
            initial_unreliable_sequence_id: if m.packet_type == 1 {
                m.initial_unreliable_sequence_id
            } else {
                0
            },
            maximum_substream_id: m.maximum_substream_id,
            fragment_id: 0,
        }
    } else if m.packet_type == 2 {
        OptionFields { fragment_id: m.fragment_id, ..z }
    } else {
        z
    }
}

/// What reading back the wire form of `m` gives: version 1, the lengths the
/// wire form records, and the option fields it carries.
pub open spec fn v1_decoded_form(m: V1Model) -> V1Model {
    with_options(V1Model { version: 1, ..with_lengths(m) }, carried_options(m))
}

/// Reading the options that `m` writes gives the option fields it carries.
pub proof fn lemma_options_roundtrip(m: V1Model)
    requires
        v1_well_formed(m),
    ensures
        read_options(m.packet_type, options_bytes(m), option_fields_of(zero_v1())) == Some(
            carried_options(m),
        ),
{
    let t = m.packet_type;
    let z = option_fields_of(zero_v1());
    let o = options_bytes(m);
    if has_connection_options(t) {
        let v = ((m.minor_version % 256) + (m.supported_functions % 16777216) * 256) as u32;
        lemma_le32_roundtrip(v);
        let tail = if t == 1 {
            seq![3u8, 2u8] + le16(m.initial_unreliable_sequence_id) + seq![4u8, 1u8, m.maximum_substream_id]
        } else {
            seq![4u8, 1u8, m.maximum_substream_id]
        };
        let s1 = o.skip(2);
        assert(o =~= seq![0u8, 4u8] + (le32(v) + (seq![1u8, 16u8] + m.connection_signature + tail)));
        assert(s1.take(4) =~= le32(v));
        let acc1 = OptionFields {
            minor_version: (v % 256) as u32,
            supported_functions: (v / 256) as u32,
            ..z
        };
        assert(v % 256 == m.minor_version && v / 256 == m.supported_functions);
        let s2 = s1.skip(4);
        assert(s2 =~= seq![1u8, 16u8] + m.connection_signature + tail);
        assert(read_options(t, o, z) == read_options(t, s2, acc1));
        let s3 = s2.skip(2).skip(16);
        assert(s2.skip(2).take(16) =~= m.connection_signature);
        assert(s3 =~= tail);
        let acc2 = OptionFields { connection_signature: m.connection_signature, ..acc1 };
        assert(read_options(t, s2, acc1) == read_options(t, s3, acc2));
        let last = seq![4u8, 1u8, m.maximum_substream_id];
        let acc4 = OptionFields { maximum_substream_id: m.maximum_substream_id, ..acc2 };
        if t == 1 {
            lemma_le16_roundtrip(m.initial_unreliable_sequence_id);
            assert(s3.skip(2).take(2) =~= le16(m.initial_unreliable_sequence_id));
            assert(s3.skip(2).skip(2) =~= last);
            let acc3 = OptionFields {
                initial_unreliable_sequence_id: m.initial_unreliable_sequence_id,
                ..acc2
            };
            assert(read_options(t, s3, acc2) == read_options(t, last, acc3));
            assert(last.skip(2).skip(1) =~= Seq::<u8>::empty());
            assert(read_options(t, last, acc3) == read_options(
                t,
                Seq::<u8>::empty(),
                OptionFields { maximum_substream_id: m.maximum_substream_id, ..acc3 },
            ));
        } else {
            assert(s3.skip(2).skip(1) =~= Seq::<u8>::empty());
            assert(read_options(t, s3, acc2) == read_options(t, Seq::<u8>::empty(), acc4));
        }
    } else if t == 2 {
        assert(o.skip(2).skip(1) =~= Seq::<u8>::empty());
        assert(read_options(t, o, z) == read_options(
            t,
            Seq::<u8>::empty(),
            OptionFields { fragment_id: m.fragment_id, ..z },
        ));
    } else {
        assert(o =~= Seq::<u8>::empty());
    }
}

/// Reading back the wire form of a well-formed packet gives its decoded
/// form: every field that the wire form carries comes back unchanged.
#[verifier::spinoff_prover]
pub proof fn lemma_v1_roundtrip(m: V1Model)
    requires
        v1_well_formed(m),
    ensures
        v1_decoding(v1_encoding(m)) == Ok::<V1Model, Seq<char>>(v1_decoded_form(m)),
{
    let o = options_bytes(m);
    let ol = o.len() as u8;
    let pl = wire_payload_length(m);
    let hb = header_bytes(m, ol, pl);
    let s = v1_encoding(m);
    lemma_le16_roundtrip(pl);
    lemma_le16_roundtrip(type_and_flags(m));
    lemma_le16_roundtrip(m.sequence_id);
    lemma_options_roundtrip(m);
    assert(o.len() <= 31) by {
        if has_connection_options(m.packet_type) {
            assert(o.len() <= 31);
        }
    }
    assert(hb.len() == 12);
    let h = s.skip(2);
    assert(h =~= hb + (m.signature + o + m.payload));
    assert(h.skip(2).take(2) =~= le16(pl));
    assert(h.skip(6).take(2) =~= le16(type_and_flags(m)));
    assert(h.skip(10).take(2) =~= le16(m.sequence_id));
    let tf = type_and_flags(m);
    assert(tf % 16 == m.packet_type && tf / 16 == m.flags);
    let r = h.skip(12);
    assert(r =~= m.signature + (o + m.payload));
    assert(r.take(16) =~= m.signature);
    let r2 = r.skip(16);
    assert(r2 =~= o + m.payload);
    assert(r2.take(ol as int) =~= o);
    assert(r2.skip(ol as int) =~= m.payload);
    assert(m.payload.take(pl as int) =~= m.payload);
    assert(v1_decoding(s) == Ok::<V1Model, Seq<char>>(v1_decoded_form(m)));
}

/// `m` with the payload length that the header records.
pub open spec fn with_payload_length(m: V1Model) -> V1Model {
    V1Model { payload_length: wire_payload_length(m), ..m }
}

/// `m` with the options and payload lengths that its wire form records.
pub open spec fn with_lengths(m: V1Model) -> V1Model {
    V1Model {
        options_length: options_bytes(m).len() as u8,
        payload_length: wire_payload_length(m),
        ..m
    }
}

/// `m` with connection signature `sig`.
pub open spec fn with_connection_signature(m: V1Model, sig: Seq<u8>) -> V1Model {
    V1Model { connection_signature: sig, ..m }
}

/// Whether the signature of a packet covers its connection signature: all
/// but CONNECT packets under legacy settings.
pub open spec fn signs_connection_signature(m: V1Model, legacy: bool) -> bool {
    !(m.packet_type == 1 && legacy)
}

/// `m` signed with the default packet signature (and its lengths recorded).
pub open spec fn signed_v1(m: V1Model, access_key: Seq<u8>, legacy: bool, session_key: Seq<u8>) -> V1Model {
    let with_cs = signs_connection_signature(m, legacy);
    V1Model {
        signature: packet_signature_of(
            access_key,
            header_bytes(m, options_bytes(m).len() as u8, wire_payload_length(m)),
            options_bytes(m),
            m.payload,
            session_key,
            if with_cs {
                Some(m.connection_signature)
            } else {
                None
            },
            with_cs,
        ),
        ..with_lengths(m)
    }
}

/// Copies 16 bytes into a signature array.
fn set16(dst: &mut [u8; 16], src: &Vec<u8>)
    requires
        src@.len() == 16,
    ensures
        final(dst)@ == src@,
{
    let mut k: usize = 0;
    while k < 16
        invariant
            k <= 16,
            src@.len() == 16,
            dst@.len() == 16,
            forall|m: int| 0 <= m < k ==> dst@[m] == src@[m],
        decreases 16 - k,
    {
        dst[k] = src[k];
        k = k + 1;
    }
    assert(dst@ =~= src@);
}

impl Default for PRUDPPacketV1 {
    fn default() -> (r: Self)
        ensures
            r@ == zero_v1(),
    {
        PRUDPPacketV1::new_empty()
    }
}

impl PRUDPPacketV1 {
    /// A packet whose fields are all zero or empty.
    pub fn new_empty() -> (r: Self)
        ensures
            r@ == zero_v1(),
    {
        let base = PRUDPPacket::new();
        let r = PRUDPPacketV1 {
            base,
            options_length: 0,
            payload_length: 0,
            minor_version: 0,
            supported_functions: 0,
            maximum_substream_id: 0,
            initial_unreliable_sequence_id: 0,
        };
        assert(r@.payload =~= Seq::<u8>::empty());
        r
    }

    /// Reads a v1 packet from the unread bytes of `stream`: magic, header,
    /// signature, options, payload; fails as `v1_decoding` describes.
    pub fn decode(stream: ByteStreamIn) -> (r: Result<Self>)
        ensures
            v1_result_matches(r, stream@),
    {
        let mut stream = stream;
        let ghost s = stream@;
        if stream.remaining() < 2 {
            return Err(Error::new(-1, "not enough bytes for magic"));
        }
        let magic = stream.read_bytes(2)?;
        if magic[0] != 0xEA || magic[1] != 0xD0 {
            return Err(Error::new(-1, "invalid PRUDPv1 magic"));
        }
        let mut pkt = PRUDPPacketV1::new_empty();
        pkt.decode_header(&mut stream)?;
        let ghost h = s.skip(2);
        assert(stream@ =~= h.skip(12));
        if stream.remaining() < 16 {
            return Err(Error::new(-1, "not enough bytes for signature"));
        }
        let sig = stream.read_bytes(16)?;
        set16(&mut pkt.base.signature, &sig);
        let ol = pkt.options_length as usize;
        if stream.remaining() < ol {
            return Err(Error::new(-1, "not enough option bytes"));
        }
        let opts = stream.read_bytes(ol)?;
        let mut opt_stream = ByteStreamIn::from_bytes(opts);
        assert(option_fields_of(pkt@) == option_fields_of(zero_v1()));
        pkt.decode_options(&mut opt_stream)?;
        let pl = pkt.payload_length as usize;
        if stream.remaining() < pl {
            return Err(Error::new(-1, "not enough payload bytes"));
        }
        pkt.base.payload = stream.read_bytes(pl)?;
        Ok(pkt)
    }

    /// Reads the twelve header bytes; fails with "not enough header bytes" when
    /// fewer are left, or with "invalid version" when the version is not 1.
    fn decode_header(&mut self, stream: &mut ByteStreamIn) -> (r: Result<()>)
        ensures
            ({
                let s = old(stream)@;
                if s.len() < 12 {
                    r matches Err(e) && is_nex_error(e, -1, "not enough header bytes"@)
                } else if s[0] != 1 {
                    r matches Err(e) && is_nex_error(e, -1, "invalid version "@ + decimal(s[0] as nat))
                } else {
                    let tf = from_le16(s.skip(6));
                    &&& r is Ok
                    &&& final(stream)@ == s.skip(12)
                    &&& final(self)@ == V1Model {
                        version: 1,
                        options_length: s[1],
                        payload_length: from_le16(s.skip(2)),
                        source_virtual_port: s[4],
                        destination_virtual_port: s[5],
                        flags: (tf / 16) as u16,
                        packet_type: (tf % 16) as u16,
                        session_id: s[8],
                        substream_id: s[9],
                        sequence_id: from_le16(s.skip(10)),
                        ..old(self)@
                    }
                }
            }),
    {
        let ghost s = stream@;
        if stream.remaining() < 12 {
            return Err(Error::new(-1, "not enough header bytes"));
        }
        let version = stream.read_u8()?;
        if version != 1 {
            return Err(invalid_version_error(version));
        }
        self.options_length = stream.read_u8()?;
        self.payload_length = stream.read_u16_le()?;
        self.base.source_virtual_port = stream.read_u8()?;
        self.base.destination_virtual_port = stream.read_u8()?;
        let type_and_flags = stream.read_u16_le()?;
        self.base.flags = type_and_flags >> 4;
        self.base.packet_type = type_and_flags & 0xF;
        assert(type_and_flags >> 4 == type_and_flags / 16 && type_and_flags & 0xF == type_and_flags
            % 16) by (bit_vector);
        self.base.session_id = stream.read_u8()?;
        self.base.substream_id = stream.read_u8()?;
        self.base.sequence_id = stream.read_u16_le()?;
        self.base.version = 1;
        assert(stream@ =~= s.skip(12));
        Ok(())
    }

    /// Reads the options in the unread bytes of `stream`, as `read_options`
    /// describes for the packet's type; fails with "underflow" when an option
    /// is cut short.
    fn decode_options(&mut self, stream: &mut ByteStreamIn) -> (r: Result<()>)
        ensures
            match read_options(old(self).base.packet_type, old(stream)@, option_fields_of(old(self)@)) {
                Some(o) => r is Ok && final(self)@ == with_options(old(self)@, o),
                None => r matches Err(e) && is_underflow(e),
            },
    {
        let t = self.base.packet_type;
        let ghost goal = read_options(t, stream@, option_fields_of(self@));
        while stream.remaining() > 0
            invariant
                t == self.base.packet_type,
                goal == read_options(old(self).base.packet_type, old(stream)@, option_fields_of(old(self)@)),
                goal == read_options(t, stream@, option_fields_of(self@)),
                self@ == with_options(old(self)@, option_fields_of(self@)),
            decreases stream@.len(),
        {
            let ghost cur = stream@;
            let option_id = stream.read_u8()?;
            let _size = stream.read_u8()?;
            assert(stream@ =~= cur.skip(2));
            if t == 0 || t == 1 {
                if option_id == 0 {
                    let v = stream.read_u32_le()?;
                    self.minor_version = v & 0xFF;
                    self.supported_functions = v >> 8;
                    assert(v & 0xFF == v % 256 && v >> 8 == v / 256) by (bit_vector);
                } else if option_id == 1 {
                    let bytes = stream.read_bytes(16)?;
                    set16(&mut self.base.connection_signature, &bytes);
                } else if option_id == 3 {
                    self.initial_unreliable_sequence_id = stream.read_u16_le()?;
                } else if option_id == 4 {
                    self.maximum_substream_id = stream.read_u8()?;
                }
            } else if t == 2 {
                if option_id == 2 {
                    self.base.fragment_id = stream.read_u8()?;
                }
            }
        }
        Ok(())
    }

    /// The option bytes for the packet's type, as `options_bytes` describes.
    fn encode_options(&self) -> (r: Vec<u8>)
        ensures
            r@ == options_bytes(self@),
            r@.len() <= 31,
    {
        let mut out = crate::byte_stream::ByteStreamOut::new();
        let t = self.base.packet_type;
        if t == 0 || t == 1 {
            out.put_u8(0);
            out.put_u8(4);
            let v = (self.minor_version & 0xFF) | (self.supported_functions << 8);
            let a = self.minor_version;
            let b = self.supported_functions;
            assert((a & 0xFF) | (b << 8) == ((a % 256) + (b % 16777216) * 256) as u32) by (bit_vector);
            out.put_u32_le(v);
            out.put_u8(1);
            out.put_u8(16);
            out.put_bytes(self.base.connection_signature.as_slice());
            if t == 1 {
                out.put_u8(3);
                out.put_u8(2);
                out.put_u16_le(self.initial_unreliable_sequence_id);
                out.put_u8(4);
                out.put_u8(1);
                out.put_u8(self.maximum_substream_id);
            } else {
                out.put_u8(4);
                out.put_u8(1);
                out.put_u8(self.maximum_substream_id);
            }
        }
        if t == 2 {
            out.put_u8(2);
            out.put_u8(1);
            out.put_u8(self.base.fragment_id);
        }
        let r = out.into_bytes();
        assert(r@ =~= options_bytes(self@));
        r
    }

    /// The twelve header bytes; records the payload length (truncated to 16
    /// bits) in the packet.
    fn encode_header(&mut self) -> (r: Vec<u8>)
        ensures
            r@ == header_bytes(old(self)@, old(self).options_length, wire_payload_length(old(self)@)),
            final(self)@ == with_payload_length(old(self)@),
    {
        self.payload_length = (self.base.payload.len() as u64 % 65536) as u16;
        let mut out = crate::byte_stream::ByteStreamOut::new();
        out.put_u8(1);
        out.put_u8(self.options_length);
        out.put_u16_le(self.payload_length);
        out.put_u8(self.base.source_virtual_port);
        out.put_u8(self.base.destination_virtual_port);
        let f = self.base.flags;
        let t = self.base.packet_type;
        let type_and_flags = (f << 4) | (t & 0xF);
        assert((f << 4) | (t & 0xF) == ((f % 4096) * 16 + t % 16) as u16) by (bit_vector);
        out.put_u16_le(type_and_flags);
        out.put_u8(self.base.session_id);
        out.put_u8(self.base.substream_id);
        out.put_u16_le(self.base.sequence_id);
        let r = out.into_bytes();
        assert(r@ =~= header_bytes(old(self)@, old(self).options_length, wire_payload_length(old(self)@)));
        r
    }

    /// The wire form of the packet: magic, header, signature, options and
    /// payload. Records the options and payload lengths in the packet.
    pub fn to_bytes(&mut self) -> (r: Vec<u8>)
        ensures
            r@ == v1_encoding(old(self)@),
            final(self)@ == with_lengths(old(self)@),
    {
        let options = self.encode_options();
        self.options_length = options.len() as u8;
        let header = self.encode_header();
        let mut out = crate::byte_stream::ByteStreamOut::new();
        out.put_u8(0xEA);
        out.put_u8(0xD0);
        out.put_bytes(header.as_slice());
        out.put_bytes(self.base.signature.as_slice());
        out.put_bytes(options.as_slice());
        out.put_bytes(self.base.payload.as_slice());
        let r = out.into_bytes();
        assert(r@ =~= v1_encoding(old(self)@));
        r
    }

    /// Sets the connection signature to the default one for `addr`.
    pub fn compute_connection_signature(&mut self, settings: &PRUDPV1Settings, addr: SocketAddress)
        ensures
            final(self)@ == with_connection_signature(
                old(self)@,
                connection_signature_of(settings.connection_signature_key@, addr),
            ),
    {
        self.base.connection_signature = settings.default_connection_signature(addr);
    }

    /// Sets the packet signature to the default one: over the header, the
    /// options and the payload, with the connection signature except for
    /// CONNECT packets under legacy settings. Records the options and payload
    /// lengths in the packet.
    pub fn compute_signature(&mut self, settings: &PRUDPV1Settings, session_key: &[u8])
        ensures
            final(self)@ == signed_v1(
                old(self)@,
                vstd::utf8::encode_utf8(settings.access_key@),
                settings.legacy_connection_signature,
                session_key@,
            ),
    {
        let options = self.encode_options();
        self.options_length = options.len() as u8;
        let header = self.encode_header();
        let include_conn_sig = !(self.base.packet_type == 1 && settings.legacy_connection_signature);
        let sig = if include_conn_sig {
            settings.default_signature(
                header.as_slice(),
                options.as_slice(),
                self.base.payload.as_slice(),
                session_key,
                Some(self.base.connection_signature.as_slice()),
                include_conn_sig,
            )
        } else {
            settings.default_signature(
                header.as_slice(),
                options.as_slice(),
                self.base.payload.as_slice(),
                session_key,
                None,
                include_conn_sig,
            )
        };
        self.base.signature = sig;
    }
}

/// In the wire form of a SYN or CONNECT packet (with its 16-byte signature),
/// the options start at byte 30 with option 0: id 0, size 4, then the minor
/// version (its low byte) followed by the low three bytes of the supported
/// functions, little-endian.
pub proof fn lemma_option0_layout(m: V1Model)
    requires
        has_connection_options(m.packet_type),
        m.signature.len() == 16,
    ensures
        ({
            let e = v1_encoding(m);
            let f = m.supported_functions;
            &&& e.len() > 35
            &&& e[30] == 0 && e[31] == 4
            &&& e[32] == m.minor_version % 256
            &&& e[33] == f % 256
            &&& e[34] == (f / 256) % 256
            &&& e[35] == (f / 65536) % 256
        }),
{
    let e = v1_encoding(m);
    let o = options_bytes(m);
    let hb = header_bytes(m, o.len() as u8, wire_payload_length(m));
    assert(hb.len() == 12);
    assert(e =~= (seq![0xEAu8, 0xD0u8] + hb + m.signature) + o + m.payload);
    assert((seq![0xEAu8, 0xD0u8] + hb + m.signature).len() == 30);
    let a = m.minor_version;
    let f = m.supported_functions;
    let v = ((a % 256) + (f % 16777216) * 256) as u32;
    assert(o[0] == 0 && o[1] == 4);
    assert(o.subrange(2, 6) =~= le32(v));
    assert(v % 256 == a % 256 && (v / 256) % 256 == f % 256 && (v / 65536) % 256 == (f / 256) % 256
        && v / 16777216 == (f / 65536) % 256) by (bit_vector)
        requires
            v == ((a % 256) + (f % 16777216) * 256) as u32,
    ;
    assert(e[32] == o[2]);
    assert(e[35] == o[5]);
}

} // verus!
