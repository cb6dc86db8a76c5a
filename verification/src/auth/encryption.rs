use vstd::prelude::*;
use crate::auth::rc4::{rc4_apply, xor_seq};

verus! {

/// Every byte of `data` xored with `key`.
pub open spec fn xor_with_byte(data: Seq<u8>, key: u8) -> Seq<u8> {
    Seq::new(data.len(), |k: int| data[k] ^ key)
}

/// Xors every byte of `data` with `key`, in place.
pub fn xor_encrypt(data: &mut [u8], key: u8)
    ensures
        final(data)@ == xor_with_byte(old(data)@, key),
{
    let ghost d0 = data@;
    let n = data.len();
    let mut k: usize = 0;
    while k < n
        invariant
            k <= n,
            n == data@.len(),
            d0.len() == n,
            forall|m: int| 0 <= m < k ==> data@[m] == d0[m] ^ key,
            forall|m: int| k <= m < n ==> data@[m] == d0[m],
        decreases n - k,
    {
        data[k] = data[k] ^ key;
        k = k + 1;
    }
    assert(data@ =~= xor_with_byte(d0, key));
}

/// RC4-transforms `data` in place with a generator keyed by `key`.
pub fn rc4_transform_inplace(key: &[u8], data: &mut [u8])
    requires
        key@.len() > 0,
    ensures
        final(data)@ == rc4_apply(key@, old(data)@),
{
    let mut gen = crate::auth::rc4::Rc4::new(key);
    gen.process(data);
}

/// The Quazal flavour of the RC4 transform, in place.
pub fn quazal_rc4_transform(key: &[u8], data: &mut [u8])
    requires
        key@.len() > 0,
    ensures
        final(data)@ == rc4_apply(key@, old(data)@),
{
    crate::auth::quazal_rc4::quazal_rc4_transform(key, data);
}

/// Xoring twice with the same byte gives the data back.
pub proof fn lemma_xor_with_byte_involution(data: Seq<u8>, key: u8)
    ensures
        xor_with_byte(xor_with_byte(data, key), key) == data,
{
    assert forall|k: int| 0 <= k < data.len() implies #[trigger] xor_with_byte(
        xor_with_byte(data, key),
        key,
    )[k] == data[k] by {
        let a = data[k];
        assert((a ^ key) ^ key == a) by (bit_vector);
    }
    assert(xor_with_byte(xor_with_byte(data, key), key) =~= data);
}

/// Xoring twice with the same stream gives the data back.
pub proof fn lemma_xor_seq_involution(data: Seq<u8>, ks: Seq<u8>)
    requires
        data.len() <= ks.len(),
    ensures
        xor_seq(xor_seq(data, ks), ks) == data,
{
    assert forall|k: int| 0 <= k < data.len() implies #[trigger] xor_seq(xor_seq(data, ks), ks)[k]
        == data[k] by {
        let a = data[k];
        let b = ks[k];
        assert((a ^ b) ^ b == a) by (bit_vector);
    }
    assert(xor_seq(xor_seq(data, ks), ks) =~= data);
}

} // verus!
