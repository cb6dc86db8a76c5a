use vstd::prelude::*;

verus! {

/// Settings of a byte stream: sizes of string lengths and PIDs, and whether
/// structures carry a header.
#[derive(Debug, Clone)]
pub struct ByteStreamSettings {
    pub string_length_size: usize,
    pub pid_size: usize,
    pub use_structure_header: bool,
}

impl Default for ByteStreamSettings {
    /// Two-byte string lengths, four-byte PIDs, no structure header.
    fn default() -> (r: Self)
        ensures
            r.string_length_size == 2,
            r.pid_size == 4,
            !r.use_structure_header,
    {
        ByteStreamSettings { string_length_size: 2, pid_size: 4, use_structure_header: false }
    }
}

} // verus!
