use vstd::prelude::*;

verus! {

/// How a packet signature is computed; the number of each method is its
/// position in this list, from 0.
#[derive(Debug, Clone, Copy, PartialEq, Eq, Structural)]
pub enum SignatureMethod {
    Method0,
    UseAddress,
    Method2,
    Method3,
    Method4,
    Method5,
    UseKey,
    Method7,
    UseEntropy,
    Ignore,
}

/// The number of a method.
pub open spec fn method_number(m: SignatureMethod) -> u8 {
    match m {
        SignatureMethod::Method0 => 0,
        SignatureMethod::UseAddress => 1,
        SignatureMethod::Method2 => 2,
        SignatureMethod::Method3 => 3,
        SignatureMethod::Method4 => 4,
        SignatureMethod::Method5 => 5,
        SignatureMethod::UseKey => 6,
        SignatureMethod::Method7 => 7,
        SignatureMethod::UseEntropy => 8,
        SignatureMethod::Ignore => 9,
    }
}

impl SignatureMethod {
    /// The number of the method.
    pub fn as_u8(&self) -> (v: u8)
        ensures
            v == method_number(*self),
    {
        match self {
            SignatureMethod::Method0 => 0,
            SignatureMethod::UseAddress => 1,
            SignatureMethod::Method2 => 2,
            SignatureMethod::Method3 => 3,
            SignatureMethod::Method4 => 4,
            SignatureMethod::Method5 => 5,
            SignatureMethod::UseKey => 6,
            SignatureMethod::Method7 => 7,
            SignatureMethod::UseEntropy => 8,
            SignatureMethod::Ignore => 9,
        }
    }

    /// The method with number `v`, if there is one (0 to 9).
    pub fn from_u8(v: u8) -> (r: Option<SignatureMethod>)
        ensures
            v <= 9 ==> (r matches Some(m) && method_number(m) == v),
            v > 9 ==> r is None,
    {
        match v {
            0 => Some(SignatureMethod::Method0),
            1 => Some(SignatureMethod::UseAddress),
            2 => Some(SignatureMethod::Method2),
            3 => Some(SignatureMethod::Method3),
            4 => Some(SignatureMethod::Method4),
            5 => Some(SignatureMethod::Method5),
            6 => Some(SignatureMethod::UseKey),
            7 => Some(SignatureMethod::Method7),
            8 => Some(SignatureMethod::UseEntropy),
            9 => Some(SignatureMethod::Ignore),
            _ => None,
        }
    }
}

/// Reading back the number of a method gives the method.
pub proof fn lemma_method_number_injective(a: SignatureMethod, b: SignatureMethod)
    ensures
        method_number(a) == method_number(b) ==> a == b,
{
}

} // verus!
