use vstd::prelude::*;

verus! {

/// Sum of the bytes of `s`.
pub open spec fn byte_sum(s: Seq<u8>) -> nat
    decreases s.len(),
{
    if s.len() == 0 {
        0
    } else {
        byte_sum(s.drop_last()) + s.last() as nat
    }
}

/// Sum of the bytes of `data`, wrapping around at 2^32.
pub fn sum_bytes_u32(data: &[u8]) -> (r: u32)
    ensures
        r == byte_sum(data@) % 4294967296,
{
    let mut acc: u32 = 0;
    let mut k: usize = 0;
    while k < data.len()
        invariant
            k <= data@.len(),
            acc == byte_sum(data@.take(k as int)) % 4294967296,
        decreases data@.len() - k,
    {
        assert(data@.take(k + 1).drop_last() =~= data@.take(k as int));
        acc = acc.wrapping_add(data[k] as u32);
        k = k + 1;
    }
    assert(data@.take(data@.len() as int) =~= data@);
    acc
}

} // verus!
