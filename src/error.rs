use vstd::prelude::*;

verus! {

/// Failures reported by chunk construction and meshing.
#[derive(Clone, Copy, Debug, PartialEq, Eq, Structural)]
pub enum WorldError {
    /// Chunk extents are zero, too large for the address space, or disagree with the data given.
    ConfigurationError,
    /// The mesh would need more vertices than 16-bit indices can address.
    CapacityExceeded,
}

} // verus!
