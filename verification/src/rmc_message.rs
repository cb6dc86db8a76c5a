use vstd::prelude::*;
use crate::byte_stream::{from_le32, le32, lemma_le32_roundtrip, ByteStreamOut};
use crate::byte_stream_in::ByteStreamIn;
use crate::error::{is_nex_error, Error, Result};

verus! {

/// Request or response of a remote method call.
#[derive(Debug, Clone, PartialEq, Eq)]
pub struct RMCMessage {
    pub protocol_id: u32,
    pub method_id: u32,
    pub call_id: u32,
    pub body: Vec<u8>,
}

/// Wire form of a message: protocol, method and call ids, the body length
/// (truncated to 32 bits), all little-endian `u32`, then the body.
pub open spec fn rmc_encoding(protocol_id: u32, method_id: u32, call_id: u32, body: Seq<u8>) -> Seq<
    u8,
> {
    le32(protocol_id) + le32(method_id) + le32(call_id) + le32((body.len() % 4294967296) as u32)
        + body
}

/// Decoding of a message: its fields, or the text of the error.
pub open spec fn rmc_decoding(s: Seq<u8>) -> std::result::Result<(u32, u32, u32, Seq<u8>), Seq<char>> {
    if s.len() < 16 {
        Err("rmc underflow"@)
    } else {
        let n = from_le32(s.skip(12)) as int;
        if s.len() - 16 < n {
            Err("rmc body underflow"@)
        } else {
            Ok((from_le32(s), from_le32(s.skip(4)), from_le32(s.skip(8)), s.subrange(16, 16 + n)))
        }
    }
}

/// `r` is the outcome that `rmc_decoding` describes for `s`.
pub open spec fn rmc_result_matches(r: Result<RMCMessage>, s: Seq<u8>) -> bool {
    match rmc_decoding(s) {
        Ok((p, m, c, b)) => r matches Ok(msg) && msg.protocol_id == p && msg.method_id == m
            && msg.call_id == c && msg.body@ == b,
        Err(text) => r matches Err(e) && is_nex_error(e, -1, text),
    }
}

impl Default for RMCMessage {
    fn default() -> (r: Self)
        ensures
            r.protocol_id == 0 && r.method_id == 0 && r.call_id == 0 && r.body@.len() == 0,
    {
        RMCMessage { protocol_id: 0, method_id: 0, call_id: 0, body: Vec::new() }
    }
}

impl RMCMessage {
    /// The wire form of the message.
    pub fn to_bytes(&self) -> (r: Vec<u8>)
        ensures
            r@ == rmc_encoding(self.protocol_id, self.method_id, self.call_id, self.body@),
    {
        let mut out = ByteStreamOut::new();
        out.put_u32_le(self.protocol_id);
        out.put_u32_le(self.method_id);
        out.put_u32_le(self.call_id);
        out.put_u32_le((self.body.len() as u64 % 4294967296) as u32);
        out.put_bytes(self.body.as_slice());
        let r = out.into_bytes();
        assert(r@ =~= rmc_encoding(self.protocol_id, self.method_id, self.call_id, self.body@));
        r
    }

    /// Reads a message from the unread bytes of `bs`.
    pub fn from_bytes(bs: ByteStreamIn) -> (r: Result<Self>)
        ensures
            rmc_result_matches(r, bs@),
    {
        let mut bs = bs;
        let ghost s = bs@;
        if bs.remaining() < 16 {
            return Err(Error::new(-1, "rmc underflow"));
        }
        let protocol_id = bs.read_u32_le()?;
        let method_id = bs.read_u32_le()?;
        let call_id = bs.read_u32_le()?;
        let body_len = bs.read_u32_le()? as usize;
        assert(s.skip(4).skip(4).skip(4) =~= s.skip(12));
        assert(s.skip(4).skip(4) =~= s.skip(8));
        assert(s.skip(4).skip(4).skip(4).skip(4) =~= s.skip(16));
        if bs.remaining() < body_len {
            return Err(Error::new(-1, "rmc body underflow"));
        }
        let body = bs.read_bytes(body_len)?;
        assert(s.skip(16).subrange(0, body_len as int) =~= s.subrange(16, 16 + body_len));
        Ok(RMCMessage { protocol_id, method_id, call_id, body })
    }
}

/// Reading back the wire form of a message gives the message back, when the
/// body length fits in 32 bits.
pub proof fn lemma_rmc_roundtrip(protocol_id: u32, method_id: u32, call_id: u32, body: Seq<u8>)
    requires
        body.len() < 4294967296,
    ensures
        rmc_decoding(rmc_encoding(protocol_id, method_id, call_id, body)) == Ok::<
            (u32, u32, u32, Seq<u8>),
            Seq<char>,
        >((protocol_id, method_id, call_id, body)),
{
    let s = rmc_encoding(protocol_id, method_id, call_id, body);
    lemma_le32_roundtrip(protocol_id);
    lemma_le32_roundtrip(method_id);
    lemma_le32_roundtrip(call_id);
    lemma_le32_roundtrip(body.len() as u32);
    assert(s.skip(4).subrange(0, 4) =~= le32(method_id));
    assert(s.skip(8).subrange(0, 4) =~= le32(call_id));
    assert(s.skip(12).subrange(0, 4) =~= le32(body.len() as u32));
    assert(s.subrange(0, 4) =~= le32(protocol_id));
    assert(s.subrange(16, 16 + body.len() as int) =~= body);
}

/// The RMC wire form: bytes 0..4 hold the protocol id, 4..8 the method id,
/// 8..12 the call id and 12..16 the body length (mod 2^32), each
/// little-endian; the body follows.
pub proof fn lemma_rmc_layout(protocol_id: u32, method_id: u32, call_id: u32, body: Seq<u8>)
    ensures
        ({
            let e = rmc_encoding(protocol_id, method_id, call_id, body);
            let n = body.len() % 4294967296;
            &&& e.len() == 16 + body.len()
            &&& e[0] == protocol_id % 256 && e[1] == (protocol_id / 256) % 256
            &&& e[2] == (protocol_id / 65536) % 256 && e[3] == protocol_id / 16777216
            &&& e[4] == method_id % 256 && e[5] == (method_id / 256) % 256
            &&& e[6] == (method_id / 65536) % 256 && e[7] == method_id / 16777216
            &&& e[8] == call_id % 256 && e[9] == (call_id / 256) % 256
            &&& e[10] == (call_id / 65536) % 256 && e[11] == call_id / 16777216
            &&& e[12] == n % 256 && e[13] == (n / 256) % 256
            &&& e[14] == (n / 65536) % 256 && e[15] == n / 16777216
            &&& e.skip(16) == body
        }),
{
    let e = rmc_encoding(protocol_id, method_id, call_id, body);
    assert(e.skip(16) =~= body);
}

/// Reading a message takes the method id from bytes 4..8 and the call id from
/// bytes 8..12 (little-endian).
pub proof fn lemma_rmc_read_layout(s: Seq<u8>)
    requires
        rmc_decoding(s) is Ok,
    ensures
        ({
            let (p, m, c, b) = rmc_decoding(s)->Ok_0;
            &&& p == s[0] + 256 * s[1] + 65536 * s[2] + 16777216 * s[3]
            &&& m == s[4] + 256 * s[5] + 65536 * s[6] + 16777216 * s[7]
            &&& c == s[8] + 256 * s[9] + 65536 * s[10] + 16777216 * s[11]
        }),
{
}

} // verus!
