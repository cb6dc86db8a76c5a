use vstd::prelude::*;
use crate::error::Result;

verus! {

/// The authentication service.
pub struct AuthService;

/// The reply to a call of `method`: the token `[1, 2, 3, 4]` for a login
/// (method 1), nothing for any other method.
pub open spec fn auth_reply(method: u16) -> Seq<u8> {
    if method == 1 {
        seq![1u8, 2u8, 3u8, 4u8]
    } else {
        Seq::empty()
    }
}

impl AuthService {
    /// The service.
    pub fn new() -> Self {
        AuthService
    }

    /// Answers a call of `method` with `body`; the body is not read.
    pub fn handle(&self, method: u16, _body: &[u8]) -> (r: Result<Vec<u8>>)
        ensures
            r matches Ok(v) && v@ == auth_reply(method),
    {
        if method == 1 {
            let v: Vec<u8> = vec![1, 2, 3, 4];
            assert(v@ =~= auth_reply(method));
            Ok(v)
        } else {
            Ok(Vec::new())
        }
    }
}

} // verus!
