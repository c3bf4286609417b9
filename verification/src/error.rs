//! The error taxonomy of the editor core.

use vstd::prelude::*;

verus! {

/// Every failure the core can report.
///
/// No error here is retried: each is either structurally prevented by an
/// invariant-preserving API or surfaced once at the call site.
#[derive(Clone, Copy, Debug, PartialEq, Eq, Structural)]
pub enum CoreError {
    /// A curve build was requested with too few control points for its kind.
    /// Fatal to that build call: no curve is constructed.
    InvalidControlPoints,
    /// A tessellation was requested with fewer than two samples.
    DegenerateSampleCount,
    /// An edit addressed an index outside the current control-point list.
    /// Recovered locally: the edit is a no-op and no state is mutated.
    IndexOutOfRange,
    /// A sample was requested with a parameter outside `[0, 1]`.
    OutOfRangeParameter,
    /// An agent or handle refers to a rail that has been destroyed.
    /// Sampling fails with this report instead of producing garbage.
    DanglingReference,
}

} // verus!
