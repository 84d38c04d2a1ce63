use vstd::prelude::*;

verus! {

/// The ways an operation of the network can fail.
#[derive(Debug, Clone, Copy, PartialEq, Eq, Structural)]
pub enum NetError {
    /// The topology has fewer than two layer sizes, or a size of zero.
    InvalidTopology,
    /// An input or target vector does not have the length its layer asks for.
    DimensionMismatch,
    /// Persisted parameter records do not describe a well-shaped network.
    SerializationError,
}

} // verus!
