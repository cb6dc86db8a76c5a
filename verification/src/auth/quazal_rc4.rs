use vstd::prelude::*;
use crate::auth::rc4::rc4_apply;

verus! {

/// The Quazal flavour of the RC4 transform: plain RC4 keyed with `key`, in place.
pub fn quazal_rc4_transform(key: &[u8], data: &mut [u8])
    requires
        key@.len() > 0,
    ensures
        final(data)@ == rc4_apply(key@, old(data)@),
{
    let mut gen = crate::auth::rc4::Rc4::new(key);
    gen.process(data);
}

} // verus!
