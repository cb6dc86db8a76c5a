use vstd::prelude::*;
use crate::byte_stream::{from_le16, le16, lemma_le16_roundtrip, push_slice, push_u16_le};
use crate::error::{Error, Result};

verus! {

/// A length-prefixed HPP frame.
#[derive(Debug, Clone)]
pub struct HppPacket {
    pub length: u16,
    pub payload: Vec<u8>,
}

/// `e` is an error of the `Other` kind with the given text.
pub open spec fn is_other_error(e: Error, msg: Seq<char>) -> bool {
    e matches Error::Other(m) && m@ == msg
}

/// Wire form of a frame: the payload length as a little-endian `u16`
/// (truncated to 16 bits), then the payload.
pub open spec fn hpp_frame(payload: Seq<u8>) -> Seq<u8> {
    le16((payload.len() % 65536) as u16) + payload
}

/// Decoding of a frame: the announced length and the payload, or the error text.
pub open spec fn hpp_unframe(b: Seq<u8>) -> std::result::Result<(u16, Seq<u8>), Seq<char>> {
    if b.len() < 2 {
        Err("hpp packet too short"@)
    } else if b.len() - 2 < from_le16(b) {
        Err("hpp payload truncated"@)
    } else {
        Ok((from_le16(b), b.subrange(2, 2 + from_le16(b) as int)))
    }
}

impl HppPacket {
    /// Frames `payload` with its length.
    pub fn encode(payload: &[u8]) -> (r: Vec<u8>)
        ensures
            r@ == hpp_frame(payload@),
    {
        let mut out: Vec<u8> = Vec::new();
        push_u16_le(&mut out, (payload.len() as u64 % 65536) as u16);
        push_slice(&mut out, payload);
        assert(out@ =~= hpp_frame(payload@));
        out
    }

    /// Reads one frame from the start of `b`; bytes after the frame are ignored.
    pub fn parse(b: Vec<u8>) -> (r: Result<Self>)
        ensures
            match hpp_unframe(b@) {
                Ok((len, p)) => r matches Ok(pkt) && pkt.length == len && pkt.payload@ == p,
                Err(text) => r matches Err(e) && is_other_error(e, text),
            },
    {
        if b.len() < 2 {
            return Err(Error::Other(String::from_str("hpp packet too short")));
        }
        let len = (b[0] as u16 + 256 * b[1] as u16) as usize;
        if b.len() - 2 < len {
            return Err(Error::Other(String::from_str("hpp payload truncated")));
        }
        let blen = b.len();
        let mut payload: Vec<u8> = Vec::new();
        let mut k: usize = 0;
        while k < len
            invariant
                k <= len,
                blen == b@.len(),
                2 + len <= b@.len(),
                payload@ == b@.subrange(2, 2 + k),
            decreases len - k,
        {
            payload.push(b[2 + k]);
            k = k + 1;
            assert(payload@ =~= b@.subrange(2, 2 + k));
        }
        Ok(HppPacket { length: len as u16, payload })
    }
}

/// Reading back a frame gives its payload, when the payload length fits in 16 bits.
pub proof fn lemma_hpp_frame_roundtrip(payload: Seq<u8>)
    requires
        payload.len() <= 65535,
    ensures
        hpp_unframe(hpp_frame(payload)) == Ok::<(u16, Seq<u8>), Seq<char>>(
            (payload.len() as u16, payload),
        ),
{
    lemma_le16_roundtrip(payload.len() as u16);
    let f = hpp_frame(payload);
    assert(f.subrange(2, 2 + payload.len() as int) =~= payload);
}

} // verus!
