use vstd::prelude::*;
use crate::algorithm::EncryptionAlgorithm;
use crate::error::Result;

verus! {

/// The scheme that leaves data unchanged.
#[derive(Clone, Debug, Default)]
pub struct DummyEncryption;

impl EncryptionAlgorithm for DummyEncryption {
    fn encrypt(&self, input: &[u8]) -> (r: Result<Vec<u8>>)
        ensures
            r matches Ok(v) && v@ == input@,
    {
        Ok(vstd::slice::slice_to_vec(input))
    }

    fn decrypt(&self, input: &[u8]) -> (r: Result<Vec<u8>>)
        ensures
            r matches Ok(v) && v@ == input@,
    {
        Ok(vstd::slice::slice_to_vec(input))
    }
}

} // verus!
