use vstd::prelude::*;

verus! {

/// Why a simulation or a likelihood evaluation refused its input.
#[derive(Clone, Copy, Debug, PartialEq, Eq, Structural)]
pub enum ProcessError {
    /// A rate, a decay, a horizon or a domain bound is out of range.
    InvalidParameter,
    /// An externally supplied sequence of jump sizes ran out before the simulation ended.
    ExhaustedJumpSource,
    /// The region has zero volume although a positive volume was asked for.
    DegenerateRegion,
}

} // verus!
