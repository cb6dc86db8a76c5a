use vstd::prelude::*;
use crate::error::Result;

verus! {

/// Stand-in for the AES and HMAC primitives: encryption and decryption hand
/// the data back unchanged, and the HMAC is empty.
pub struct CryptoStub;

impl CryptoStub {
    /// The stub.
    pub fn new() -> Self {
        CryptoStub
    }

    /// A copy of `data`; the key is not used.
    pub fn aes_encrypt(&self, _key: &[u8], data: &[u8]) -> (r: Result<Vec<u8>>)
        ensures
            r matches Ok(v) && v@ == data@,
    {
        Ok(vstd::slice::slice_to_vec(data))
    }

    /// A copy of `data`; the key is not used.
    pub fn aes_decrypt(&self, _key: &[u8], data: &[u8]) -> (r: Result<Vec<u8>>)
        ensures
            r matches Ok(v) && v@ == data@,
    {
        Ok(vstd::slice::slice_to_vec(data))
    }

    /// An empty digest.
    pub fn hmac(&self, _key: &[u8], _data: &[u8]) -> (r: Result<Vec<u8>>)
        ensures
            r matches Ok(v) && v@.len() == 0,
    {
        Ok(Vec::new())
    }
}

} // verus!
