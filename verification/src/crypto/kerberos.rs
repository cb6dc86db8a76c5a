use vstd::prelude::*;
use rand::Rng;
use crate::auth::rc4::xor_seq;
use crate::auth::encryption::lemma_xor_seq_involution;

verus! {

/// Sixteen random bytes, filled by `rand::Rng::fill` on `rand::thread_rng`.
///
/// Trusted for nothing: no clause speaks of the bytes, which are random.
#[verifier::external_body]
fn random_key() -> [u8; 16] {
    let mut key = [0u8; 16];
    rand::thread_rng().fill(&mut key);
    key
}

/// A session ticket: a 16-byte session key for a user.
pub struct Ticket {
    pub session_key: [u8; 16],
    pub user_id: u32,
}

/// Issues tickets and applies their session keys.
pub struct Kerberos;

/// The session key repeated over `n` bytes.
pub open spec fn key_cycle(key: Seq<u8>, n: nat) -> Seq<u8> {
    Seq::new(n, |i: int| key[i % 16])
}

impl Kerberos {
    /// A ticket for `user_id` with a fresh random session key.
    pub fn issue_ticket(user_id: u32) -> (t: Ticket)
        ensures
            t.user_id == user_id,
    {
        let key = random_key();
        Ticket { session_key: key, user_id }
    }

    /// `data` xored with the ticket's session key, repeated.
    pub fn encrypt(ticket: &Ticket, data: &[u8]) -> (out: Vec<u8>)
        ensures
            out@ == xor_seq(data@, key_cycle(ticket.session_key@, data@.len())),
    {
        let ghost ks = key_cycle(ticket.session_key@, data@.len());
        let mut out: Vec<u8> = Vec::new();
        let mut i: usize = 0;
        while i < data.len()
            invariant
                i <= data@.len(),
                ks == key_cycle(ticket.session_key@, data@.len()),
                out@.len() == i,
                forall|m: int| 0 <= m < i ==> out@[m] == data@[m] ^ ks[m],
            decreases data@.len() - i,
        {
            out.push(data[i] ^ ticket.session_key[i % 16]);
            i = i + 1;
        }
        assert(out@ =~= xor_seq(data@, ks));
        out
    }

    /// The same transform as `encrypt`, which undoes it.
    pub fn decrypt(ticket: &Ticket, data: &[u8]) -> (out: Vec<u8>)
        ensures
            out@ == xor_seq(data@, key_cycle(ticket.session_key@, data@.len())),
    {
        Self::encrypt(ticket, data)
    }
}

/// Decrypting with a ticket what was encrypted with it gives the data back.
pub proof fn lemma_decrypt_encrypt(key: Seq<u8>, data: Seq<u8>)
    ensures
        xor_seq(xor_seq(data, key_cycle(key, data.len())), key_cycle(key, data.len())) == data,
{
    lemma_xor_seq_involution(data, key_cycle(key, data.len()));
}

} // verus!
