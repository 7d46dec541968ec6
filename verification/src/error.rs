//! Why an operation of the library is refused.

use vstd::prelude::*;

verus! {

/// The ways in which a caller can go wrong. None of them is recoverable at
/// run time: each one points at a construction or wiring mistake.
#[derive(Clone, Copy, Debug, PartialEq, Eq, Structural)]
pub enum Error {
    /// A vector or matrix does not have the size that its place demands.
    ShapeMismatch,
    /// A network of fewer than two layers, that is without any transition.
    InvalidTopology,
    /// An error signal sent back through a layer without activation.
    InvalidOperation,
}

} // verus!
