use vstd::prelude::*;

verus! {

/// Principal identifier of a user or a server.
#[derive(Clone, Copy, Debug, PartialEq, Eq, Structural)]
pub struct PID(pub u32);

impl PID {
    /// The numeric value of the identifier.
    pub fn value(&self) -> (v: u32)
        ensures
            v == self.0,
    {
        self.0
    }
}

} // verus!
