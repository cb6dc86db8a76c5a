use vstd::prelude::*;

verus! {

/// Kinds of PRUDP packets.
#[derive(Debug, Clone, Copy, PartialEq, Eq)]
pub enum PRUDPPacketType {
    Syn,
    Connect,
    Data,
    Disconnect,
    Ping,
}

impl PRUDPPacketType {
    /// The type number on the wire.
    pub open spec fn spec_code(self) -> u16 {
        match self {
            PRUDPPacketType::Syn => 0,
            PRUDPPacketType::Connect => 1,
            PRUDPPacketType::Data => 2,
            PRUDPPacketType::Disconnect => 3,
            PRUDPPacketType::Ping => 4,
        }
    }

    /// The type number on the wire.
    pub fn as_u16(&self) -> (v: u16)
        ensures
            v == self.spec_code(),
    {
        match self {
            PRUDPPacketType::Syn => 0,
            PRUDPPacketType::Connect => 1,
            PRUDPPacketType::Data => 2,
            PRUDPPacketType::Disconnect => 3,
            PRUDPPacketType::Ping => 4,
        }
    }
}

/// Type number of SYN packets.
pub const SYN: u16 = 0;

/// Type number of CONNECT packets.
pub const CONNECT: u16 = 1;

/// Type number of DATA packets.
pub const DATA: u16 = 2;

} // verus!
