use vstd::prelude::*;
use std::io::{Read, Write};
use flate2::read::ZlibDecoder;
use flate2::write::ZlibEncoder;
use flate2::Compression;
use crate::compression::algorithm::Algorithm;
use crate::error::{Error, Result};

verus! {

/// The zlib stream that `flate2` writes for `data` at the default level.
pub uninterp spec fn zlib_deflate(data: Seq<u8>) -> Seq<u8>;

/// What `flate2` reads out of the zlib stream `data`: the inflated bytes, or
/// `None` when `data` is not a complete valid stream.
pub uninterp spec fn zlib_inflate(data: Seq<u8>) -> Option<Seq<u8>>;

/// Compresses `payload` through `flate2::write::ZlibEncoder` (default level)
/// into a `Vec`, via `write_all` and `finish`.
///
/// Trusted: it succeeds, since writing into a `Vec` cannot fail, and returns
/// the stream named `zlib_deflate`; the error arm only converts the
/// `std::io::Error` type.
#[verifier::external_body]
fn zlib_compress(payload: &[u8]) -> (r: std::result::Result<Vec<u8>, String>)
    ensures
        r is Ok,
        r matches Ok(v) ==> v@ == zlib_deflate(payload@),
{
    let mut enc = ZlibEncoder::new(Vec::new(), Compression::default());
    match enc.write_all(payload) {
        Ok(()) => {},
        Err(e) => return Err(e.to_string()),
    }
    enc.finish().map_err(|e| e.to_string())
}

/// Decompresses `payload` through `flate2::read::ZlibDecoder` and
/// `read_to_end`.
///
/// Trusted: it succeeds exactly when `zlib_inflate` gives bytes, and then
/// returns them; an error carries the text of the `std::io::Error`.
#[verifier::external_body]
fn zlib_decompress(payload: &[u8]) -> (r: std::result::Result<Vec<u8>, String>)
    ensures
        match r {
            Ok(v) => zlib_inflate(payload@) == Some(v@),
            Err(_) => zlib_inflate(payload@) is None,
        },
{
    let mut dec = ZlibDecoder::new(payload);
    let mut out = Vec::new();
    match dec.read_to_end(&mut out) {
        Ok(_) => Ok(out),
        Err(e) => Err(e.to_string()),
    }
}

/// Zlib compression.
#[derive(Default, Debug, Clone)]
pub struct Zlib;

impl Algorithm for Zlib {
    fn compress(&self, payload: &[u8]) -> (r: Result<Vec<u8>>)
        ensures
            r matches Ok(v) && v@ == zlib_deflate(payload@),
    {
        match zlib_compress(payload) {
            Ok(v) => Ok(v),
            Err(msg) => Err(Error::Io(msg)),
        }
    }

    fn decompress(&self, payload: &[u8]) -> (r: Result<Vec<u8>>)
        ensures
            match r {
                Ok(v) => zlib_inflate(payload@) == Some(v@),
                Err(e) => zlib_inflate(payload@) is None && e is Io,
            },
    {
        match zlib_decompress(payload) {
            Ok(v) => Ok(v),
            Err(msg) => Err(Error::Io(msg)),
        }
    }
}

} // verus!
