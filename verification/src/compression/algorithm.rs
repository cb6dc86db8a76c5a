use vstd::prelude::*;
use crate::error::Result;

verus! {

/// A payload compression scheme.
pub trait Algorithm {
    /// The compressed form of `payload`.
    fn compress(&self, payload: &[u8]) -> Result<Vec<u8>>;

    /// The payload that `payload` is the compressed form of.
    fn decompress(&self, payload: &[u8]) -> Result<Vec<u8>>;
}

} // verus!
