use vstd::prelude::*;

verus! {

/// The receipt of one write: where the value lies and under which version of
/// its page it was stored.
#[derive(Debug, Clone, Copy, PartialEq, Eq, Structural)]
pub struct WriteResponse {
    /// The page that holds the value.
    pub page_id: u64,
    /// Where in that page the value starts.
    pub page_offset: u64,
    /// The version that the page had when the value was written.
    pub version: u64,
    /// How many bytes the value takes.
    pub length: u64,
}

/// What the owner of the backing file has to do for one write.
#[derive(Debug)]
pub struct WriteStep {
    /// Where to move the write handle first: set when the write opens a new
    /// page, and then the start of that page.
    pub seek: Option<u64>,
    /// The bytes to write at the handle's position.
    pub data: Vec<u8>,
    /// The receipt for the value.
    pub response: WriteResponse,
}

} // verus!
