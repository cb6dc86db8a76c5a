use vstd::prelude::*;
use crate::byte_stream::from_le32;
use crate::error::{Error, Result};
use crate::hpp::packet::{hpp_unframe, is_other_error, HppPacket};

verus! {

/// A method call carried in an HPP frame: the method id and the call body.
#[derive(Debug)]
pub struct RmcMessage {
    pub method_id: u32,
    pub body: Vec<u8>,
}

/// Decoding of a call: the method id (little-endian `u32`) and the rest, or the error text.
pub open spec fn hpp_rmc_decoding(b: Seq<u8>) -> std::result::Result<(u32, Seq<u8>), Seq<char>> {
    if b.len() < 4 {
        Err("rmc too short"@)
    } else {
        Ok((from_le32(b), b.skip(4)))
    }
}

/// `r` is the outcome that `hpp_rmc_decoding` describes for `b`.
pub open spec fn hpp_rmc_result_matches(r: Result<RmcMessage>, b: Seq<u8>) -> bool {
    match hpp_rmc_decoding(b) {
        Ok((id, body)) => r matches Ok(m) && m.method_id == id && m.body@ == body,
        Err(text) => r matches Err(e) && is_other_error(e, text),
    }
}

impl RmcMessage {
    /// Reads a call: a little-endian `u32` method id followed by the body.
    pub fn parse(b: Vec<u8>) -> (r: Result<Self>)
        ensures
            hpp_rmc_result_matches(r, b@),
    {
        if b.len() < 4 {
            return Err(Error::Other(String::from_str("rmc too short")));
        }
        let id = b[0] as u32 + 256 * (b[1] as u32) + 65536 * (b[2] as u32) + 16777216 * (
        b[3] as u32);
        let mut body: Vec<u8> = Vec::new();
        let mut k: usize = 4;
        while k < b.len()
            invariant
                4 <= k <= b@.len(),
                body@ == b@.subrange(4, k as int),
            decreases b@.len() - k,
        {
            body.push(b[k]);
            k = k + 1;
            assert(body@ =~= b@.subrange(4, k as int));
        }
        assert(body@ =~= b@.skip(4));
        Ok(RmcMessage { method_id: id, body })
    }

    /// Reads the call carried in an HPP frame: the frame is unframed, then its
    /// payload is read as a call. Errors of either step are returned.
    pub fn from_hpp_frame(data: Vec<u8>) -> (r: Result<Self>)
        ensures
            match hpp_unframe(data@) {
                Ok((_, p)) => hpp_rmc_result_matches(r, p),
                Err(text) => r matches Err(e) && is_other_error(e, text),
            },
    {
        let p = HppPacket::parse(data)?;
        RmcMessage::parse(p.payload)
    }
}

} // verus!
