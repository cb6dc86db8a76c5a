use vstd::prelude::*;
use md5::{Digest, Md5};
use crate::types::pid::PID;

verus! {

/// The MD5 digest of `data` (16 bytes), as computed by the `md-5` crate.
pub uninterp spec fn md5_spec(data: Seq<u8>) -> Seq<u8>;

/// MD5 of `data`, via `md5::Md5::digest` of the `md-5` crate.
///
/// Trusted: the result is the 16-byte digest that the crate computes, named
/// `md5_spec`; nothing more of MD5 is stated.
#[verifier::external_body]
pub(crate) fn md5_digest(data: &[u8]) -> (d: [u8; 16])
    ensures
        d@ == md5_spec(data@),
{
    let out = Md5::digest(data);
    let mut arr = [0u8; 16];
    arr.copy_from_slice(&out[..]);
    arr
}

/// `data` hashed `n` times with MD5.
pub open spec fn md5_iterate(data: Seq<u8>, n: nat) -> Seq<u8>
    decreases n,
{
    if n == 0 {
        data
    } else {
        md5_spec(md5_iterate(data, (n - 1) as nat))
    }
}

/// Number of MD5 rounds in the Kerberos key derivation for a PID value.
pub open spec fn kerberos_rounds(pid: u32) -> nat {
    (65000 + pid % 1024) as nat
}

/// Hashes `password` `rounds` times with MD5.
pub(crate) fn md5_rounds(password: &[u8], rounds: u32) -> (key: Vec<u8>)
    ensures
        key@ == md5_iterate(password@, rounds as nat),
        rounds > 0 ==> key@.len() == 16,
{
    let mut key: Vec<u8> = vstd::slice::slice_to_vec(password);
    let mut n: u32 = 0;
    while n < rounds
        invariant
            n <= rounds,
            key@ == md5_iterate(password@, n as nat),
            n > 0 ==> key@.len() == 16,
        decreases rounds - n,
    {
        let hash = md5_digest(key.as_slice());
        key = vstd::slice::slice_to_vec(hash.as_slice());
        n = n + 1;
    }
    key
}

/// Derives the Kerberos key of a user: the password hashed with MD5
/// `65000 + pid % 1024` times.
pub fn derive_kerberos_key(pid: PID, password: &[u8]) -> (key: Vec<u8>)
    ensures
        key@ == md5_iterate(password@, kerberos_rounds(pid.0)),
        key@.len() == 16,
{
    let iteration_count: u32 = 65000 + pid.0 % 1024;
    md5_rounds(password, iteration_count)
}

/// The Kerberos key of a PID is the password hashed with MD5 exactly
/// `65000 + pid % 1024` times: PID 0 takes 65000 rounds, each PID within a
/// block of 1024 takes one round more than the one before it, and PIDs 1024
/// apart share their key.
pub proof fn lemma_kerberos_key_rounds(pid: u32, password: Seq<u8>)
    ensures
        md5_iterate(password, kerberos_rounds(pid)) == md5_iterate(password, (65000 + pid % 1024) as nat),
        md5_iterate(password, kerberos_rounds(0)) == md5_iterate(password, 65000),
        pid < u32::MAX && pid % 1024 != 1023 ==> md5_iterate(password, kerberos_rounds((pid + 1) as u32))
            == md5_spec(md5_iterate(password, kerberos_rounds(pid))),
        pid <= u32::MAX - 1024 ==> md5_iterate(password, kerberos_rounds((pid + 1024) as u32))
            == md5_iterate(password, kerberos_rounds(pid)),
{
    if pid < u32::MAX && pid % 1024 != 1023 {
        assert(kerberos_rounds((pid + 1) as u32) == kerberos_rounds(pid) + 1);
    }
    if pid <= u32::MAX - 1024 {
        assert(kerberos_rounds((pid + 1024) as u32) == kerberos_rounds(pid));
    }
}

} // verus!
