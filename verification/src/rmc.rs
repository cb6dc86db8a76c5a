use vstd::prelude::*;

verus! {

/// A remote method call: its id, the service and method called, and the
/// argument bytes.
#[derive(Debug)]
pub struct RmcCall {
    pub call_id: u32,
    pub service_id: u16,
    pub method_id: u16,
    pub payload: Vec<u8>,
}

} // verus!
