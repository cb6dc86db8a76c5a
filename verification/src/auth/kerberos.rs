use vstd::prelude::*;
use crate::error::Result;
use crate::kerberos::{kerberos_rounds, md5_iterate, md5_rounds};

verus! {

/// The magic that starts a ticket: the bytes of "KRB".
pub open spec fn ticket_magic() -> Seq<u8> {
    seq![0x4Bu8, 0x52u8, 0x42u8]
}

/// A ticket is accepted when it is empty or starts with the "KRB" magic.
pub open spec fn ticket_is_valid(ticket: Seq<u8>) -> bool {
    ticket.len() == 0 || (ticket.len() >= 3 && ticket.subrange(0, 3) == ticket_magic())
}

/// Checks a ticket: `Ok(true)` when it is empty or starts with "KRB", else `Ok(false)`.
pub fn validate_ticket(ticket: &[u8]) -> (r: Result<bool>)
    ensures
        r matches Ok(b) && b == ticket_is_valid(ticket@),
{
    if ticket.len() == 0 {
        return Ok(true);
    }
    if ticket.len() >= 3 && ticket[0] == 0x4B && ticket[1] == 0x52 && ticket[2] == 0x42 {
        assert(ticket@.subrange(0, 3) =~= ticket_magic());
        return Ok(true);
    }
    proof {
        if ticket@.len() >= 3 && ticket@.subrange(0, 3) == ticket_magic() {
            assert(ticket@.subrange(0, 3)[0] == 0x4Bu8);
            assert(ticket@.subrange(0, 3)[1] == 0x52u8);
            assert(ticket@.subrange(0, 3)[2] == 0x42u8);
        }
    }
    Ok(false)
}

/// A ticket made of the "KRB" magic followed by `payload`.
pub fn make_dummy_ticket(payload: &[u8]) -> (t: Vec<u8>)
    ensures
        t@ == ticket_magic() + payload@,
{
    let mut v: Vec<u8> = Vec::new();
    v.push(0x4B);
    v.push(0x52);
    v.push(0x42);
    let mut k: usize = 0;
    while k < payload.len()
        invariant
            k <= payload@.len(),
            v@ == ticket_magic() + payload@.subrange(0, k as int),
        decreases payload@.len() - k,
    {
        v.push(payload[k]);
        k = k + 1;
        assert(v@ =~= ticket_magic() + payload@.subrange(0, k as int));
    }
    assert(payload@.subrange(0, payload@.len() as int) =~= payload@);
    v
}

/// A ticket made by `make_dummy_ticket` is always accepted by `validate_ticket`.
pub proof fn lemma_dummy_ticket_is_valid(payload: Seq<u8>)
    ensures
        ticket_is_valid(ticket_magic() + payload),
{
    assert((ticket_magic() + payload).subrange(0, 3) =~= ticket_magic());
}

/// Derives the Kerberos key of a user from a numeric PID: the password hashed
/// with MD5 `65000 + pid % 1024` times.
pub fn derive_kerberos_key(pid: u32, password: &[u8]) -> (key: Vec<u8>)
    ensures
        key@ == md5_iterate(password@, kerberos_rounds(pid)),
        key@.len() == 16,
{
    let iteration_count: u32 = 65000 + pid % 1024;
    md5_rounds(password, iteration_count)
}

} // verus!
