use vstd::prelude::*;

verus! {

/// Why an operation of this crate refused its input.
#[derive(Debug, Clone, Copy, PartialEq, Eq)]
pub enum MantaError {
    /// A decoded asset or receiver is not consistent with its own digests.
    SanityCheckFail,
    /// The commitment of an asset is not among the leaves it was looked up in.
    LeavesNotFound,
    /// The input ended before the value it encodes did.
    ShortRead,
}

} // verus!
