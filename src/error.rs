use vstd::prelude::*;

verus! {

/// Why an encode or a decode failed.
#[derive(Clone, Copy, PartialEq, Eq, Debug, Structural)]
pub enum CodecError {
    /// Fewer bytes were available than the value being decoded requires.
    Truncated,
    /// The content of a vector is longer than its length prefix can state.
    LengthOverflow,
    /// An element of a vector runs past the vector's declared byte length.
    Malformed,
    /// A union selector outside the union's set of variants.
    UnknownVariant(u64),
}

} // verus!
