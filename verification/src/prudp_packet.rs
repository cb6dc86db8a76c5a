use vstd::prelude::*;

verus! {

/// Fields that PRUDP packets of both versions share.
#[derive(Debug, Clone)]
pub struct PRUDPPacket {
    pub version: u8,
    pub source_virtual_port: u8,
    pub destination_virtual_port: u8,
    pub packet_type: u16,
    pub flags: u16,
    pub session_id: u8,
    pub substream_id: u8,
    pub sequence_id: u16,
    pub signature: [u8; 16],
    pub connection_signature: [u8; 16],
    pub fragment_id: u8,
    pub payload: Vec<u8>,
}

/// Sixteen zero bytes.
pub open spec fn zero16() -> Seq<u8> {
    Seq::new(16, |k: int| 0u8)
}

/// Whether every field of `p` is zero or empty.
pub open spec fn is_zero_packet(p: PRUDPPacket) -> bool {
    &&& p.version == 0 && p.source_virtual_port == 0 && p.destination_virtual_port == 0
    &&& p.packet_type == 0 && p.flags == 0 && p.session_id == 0 && p.substream_id == 0
    &&& p.sequence_id == 0 && p.fragment_id == 0
    &&& p.signature@ == zero16() && p.connection_signature@ == zero16()
    &&& p.payload@.len() == 0
}

impl Default for PRUDPPacket {
    fn default() -> (r: Self)
        ensures
            is_zero_packet(r),
    {
        PRUDPPacket::new()
    }
}

impl PRUDPPacket {
    /// A packet whose fields are all zero or empty.
    pub fn new() -> (r: Self)
        ensures
            is_zero_packet(r),
    {
        let r = PRUDPPacket {
            version: 0,
            source_virtual_port: 0,
            destination_virtual_port: 0,
            packet_type: 0,
            flags: 0,
            session_id: 0,
            substream_id: 0,
            sequence_id: 0,
            signature: [0u8; 16],
            connection_signature: [0u8; 16],
            fragment_id: 0,
            payload: Vec::new(),
        };
        assert(r.signature@ =~= zero16());
        assert(r.connection_signature@ =~= zero16());
        r
    }

    /// Replaces the packet signature.
    pub fn set_signature(&mut self, sig: [u8; 16])
        ensures
            *final(self) == (PRUDPPacket { signature: sig, ..*old(self) }),
    {
        self.signature = sig;
    }

    /// Replaces the connection signature.
    pub fn set_connection_signature(&mut self, sig: [u8; 16])
        ensures
            *final(self) == (PRUDPPacket { connection_signature: sig, ..*old(self) }),
    {
        self.connection_signature = sig;
    }
}

} // verus!
