use vstd::prelude::*;
use crate::auth::rc4::xor_seq;
use crate::auth::encryption::lemma_xor_seq_involution;
use crate::byte_stream::{le32, push_u32_le, push_slice};
use crate::kerberos::{md5_digest, md5_spec};

verus! {

/// `pos + i`, wrapping at the width of `usize`.
pub open spec fn wrapping_pos(pos: usize, i: int) -> usize {
    ((pos + i) % (usize::MAX as int + 1)) as usize
}

/// The key stream of `n` bytes from position `pos`: byte `i` is the key byte
/// at `(pos + i) % key.len()`, the position wrapping at the width of `usize`.
pub open spec fn repeating_keystream(key: Seq<u8>, pos: usize, n: nat) -> Seq<u8> {
    Seq::new(n, |i: int| key[(wrapping_pos(pos, i) as int) % (key.len() as int)])
}

proof fn lemma_wrapping_pos(pos: usize, i: int)
    requires
        i >= 0,
    ensures
        wrapping_pos(pos, 0) == pos,
        wrapping_pos(pos, i + 1) == wrapping_pos(pos, i).wrapping_add(1),
{
    let m: int = usize::MAX as int + 1;
    vstd::arithmetic::div_mod::lemma_small_mod(pos as nat, m as nat);
    let r = (pos + i) % m;
    vstd::arithmetic::div_mod::lemma_add_mod_noop(pos + i, 1, m);
    vstd::arithmetic::div_mod::lemma_small_mod(1, m as nat);
    assert((r + 1) % m == (pos + i + 1) % m);
    if r + 1 < m {
        vstd::arithmetic::div_mod::lemma_small_mod((r + 1) as nat, m as nat);
    } else {
        vstd::arithmetic::div_mod::lemma_mod_self_0(m);
    }
}

/// A repeating-key xor stream: the key and the position in the stream.
pub struct PrudpCrypto {
    pub key: Vec<u8>,
    pub pos: usize,
}

impl PrudpCrypto {
    /// A stream over a copy of `key`, at position 0.
    pub fn new(key: &[u8]) -> (c: Self)
        ensures
            c.key@ == key@,
            c.pos == 0,
    {
        PrudpCrypto { key: vstd::slice::slice_to_vec(key), pos: 0 }
    }

    /// Xors `data` in place with the key stream from the current position,
    /// and moves the position past it. The key must not be empty unless the
    /// data is.
    pub fn transform(&mut self, data: &mut [u8])
        requires
            old(self).key@.len() > 0 || old(data)@.len() == 0,
        ensures
            final(data)@ == xor_seq(old(data)@, repeating_keystream(old(self).key@, old(self).pos, old(data)@.len())),
            final(self).key@ == old(self).key@,
            final(self).pos == wrapping_pos(old(self).pos, old(data)@.len() as int),
    {
        let ghost d0 = data@;
        let ghost pos0 = self.pos;
        let ghost ks = repeating_keystream(self.key@, pos0, d0.len());
        let n = data.len();
        let mut i: usize = 0;
        proof {
            lemma_wrapping_pos(pos0, 0);
        }
        while i < n
            invariant
                i <= n,
                n == data@.len(),
                d0.len() == n,
                n > 0 ==> self.key@.len() > 0,
                self.key@ == old(self).key@,
                pos0 == old(self).pos,
                ks == repeating_keystream(self.key@, pos0, d0.len()),
                self.pos == wrapping_pos(pos0, i as int),
                forall|m: int| 0 <= m < i ==> data@[m] == d0[m] ^ ks[m],
                forall|m: int| i <= m < n ==> data@[m] == d0[m],
            decreases n - i,
        {
            let k = self.key[self.pos % self.key.len()];
            data[i] = data[i] ^ k;
            proof {
                lemma_wrapping_pos(pos0, i as int);
            }
            self.pos = self.pos.wrapping_add(1);
            i = i + 1;
        }
        assert(data@ =~= xor_seq(d0, ks));
    }
}

/// MD5 of the PID (4 bytes, little-endian) followed by the password.
pub fn derive_key_stub(pid: u32, password: &[u8]) -> (key: Vec<u8>)
    ensures
        key@ == md5_spec(le32(pid) + password@),
        key@.len() == 16,
{
    let mut input: Vec<u8> = Vec::new();
    push_u32_le(&mut input, pid);
    push_slice(&mut input, password);
    let digest = md5_digest(input.as_slice());
    vstd::slice::slice_to_vec(digest.as_slice())
}

/// Two streams over the same key, at the same position, undo each other:
/// transforming the output of a transform gives the data back.
pub proof fn lemma_transform_roundtrip(key: Seq<u8>, pos: usize, data: Seq<u8>)
    requires
        key.len() > 0,
    ensures
        xor_seq(xor_seq(data, repeating_keystream(key, pos, data.len())), repeating_keystream(key, pos, data.len()))
            == data,
{
    lemma_xor_seq_involution(data, repeating_keystream(key, pos, data.len()));
}

} // verus!
