use vstd::prelude::*;
use crate::compression::algorithm::Algorithm;
use crate::error::{is_nex_error, Error, Result};

verus! {

/// LZO, which the library does not implement: every call fails.
#[derive(Default, Debug, Clone)]
pub struct Lzo;

impl Algorithm for Lzo {
    fn compress(&self, _payload: &[u8]) -> (r: Result<Vec<u8>>)
        ensures
            r matches Err(e) && is_nex_error(e, -1, "LZO compression not implemented"@),
    {
        proof {
            reveal_strlit("LZO compression not implemented");
        }
        Err(Error::new(-1, "LZO compression not implemented"))
    }

    fn decompress(&self, _payload: &[u8]) -> (r: Result<Vec<u8>>)
        ensures
            r matches Err(e) && is_nex_error(e, -1, "LZO decompression not implemented"@),
    {
        Err(Error::new(-1, "LZO decompression not implemented"))
    }
}

} // verus!
