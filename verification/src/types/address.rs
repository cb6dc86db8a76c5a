use vstd::prelude::*;

verus! {

/// A socket address as the protocol reads it: the four octets and port of an
/// IPv4 address; IPv6 addresses carry nothing the protocol uses.
#[derive(Clone, Copy, Debug)]
pub enum SocketAddress {
    V4 { octets: [u8; 4], port: u16 },
    V6,
}

} // verus!
