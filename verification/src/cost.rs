//! Costs that compare a network output with its target, seen by the lengths
//! of the vectors involved.

use vstd::prelude::*;
use crate::error::Error;
use crate::shape::elementwise;

verus! {

/// What every cost answers about its dimensions.
pub trait Cost {
    /// Length of the gradient of the cost with respect to an output of length
    /// `output`, for a target of length `target`: that of the output, as long
    /// as the target has it too.
    fn d_cost_shape(&self, output: usize, target: usize) -> (len: Result<usize, Error>)
        ensures
            len == if output == target {
                Ok::<usize, Error>(output)
            } else {
                Err::<usize, Error>(Error::ShapeMismatch)
            },
    ;
}

/// Mean squared error: half the sum of the squared differences, whose
/// gradient is the difference of output and target.
pub struct MSE {}

impl Cost for MSE {
    fn d_cost_shape(&self, output: usize, target: usize) -> (len: Result<usize, Error>) {
        elementwise(output, target)
    }
}

} // verus!
