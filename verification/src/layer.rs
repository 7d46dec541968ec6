//! Layers of a feedforward network, seen by their neuron count.

use vstd::prelude::*;
use crate::error::Error;

verus! {

/// What every layer kind answers about its dimensions.
///
/// A layer never changes dimensionality by itself: that is the job of the
/// weight matrix feeding into it. So both shapes are the neuron count.
pub trait Layer {
    /// The neuron count of the layer.
    spec fn neurons(&self) -> nat;

    /// Whether the layer bears an activation function, so that an error
    /// signal can be propagated back through it.
    spec fn differentiable(&self) -> bool;

    /// Length of the vector that the layer gives.
    fn output_shape(&self) -> (n: usize)
        ensures
            n == self.neurons(),
    ;

    /// Length of the vector that the layer takes.
    fn input_shape(&self) -> (n: usize)
        ensures
            n == self.neurons(),
    ;

    /// Whether the layer bears an activation function.
    fn has_activation(&self) -> (b: bool)
        ensures
            b == self.differentiable(),
    ;

    /// Length of what the layer makes of a pre-activation vector of length
    /// `x`: again `x`, where `x` is the neuron count. Any other length is a
    /// shape mismatch.
    fn feed_forward_shape(&self, x: usize) -> (len: Result<usize, Error>)
        ensures
            len == spec_feed_forward(self.neurons(), x),
    ;

    /// Length of the error signal that the layer hands back, given an error
    /// signal of length `nabla` from downstream and its own pre-activation of
    /// length `x`: the element-wise product of `nabla` and the activation's
    /// derivative at `x`. On a layer without activation this is an invalid
    /// operation; on lengths other than the neuron count, a shape mismatch.
    fn back_prop_shape(&self, nabla: usize, x: usize) -> (len: Result<usize, Error>)
        ensures
            len == spec_back_prop(self.neurons(), self.differentiable(), nabla, x),
    ;
}

/// Length of what a layer of `neurons` neurons makes of a vector of length
/// `x`.
pub open spec fn spec_feed_forward(neurons: nat, x: usize) -> Result<usize, Error> {
    if x == neurons {
        Ok(x)
    } else {
        Err(Error::ShapeMismatch)
    }
}

/// Length of the error signal that a layer of `neurons` neurons hands back.
pub open spec fn spec_back_prop(neurons: nat, differentiable: bool, nabla: usize, x: usize)
    -> Result<usize, Error> {
    if !differentiable {
        Err(Error::InvalidOperation)
    } else if nabla == neurons && x == neurons {
        Ok(nabla)
    } else {
        Err(Error::ShapeMismatch)
    }
}

/// The first layer: hands its input on unchanged and has no activation.
pub struct InputLayer {
    neurons: usize,
}

impl InputLayer {
    pub fn new(neurons: usize) -> (layer: Self)
        ensures
            layer.neurons() == neurons,
    {
        InputLayer { neurons }
    }
}

impl Layer for InputLayer {
    closed spec fn neurons(&self) -> nat {
        self.neurons as nat
    }

    open spec fn differentiable(&self) -> bool {
        false
    }

    fn output_shape(&self) -> (n: usize) {
        self.neurons
    }

    fn input_shape(&self) -> (n: usize) {
        self.neurons
    }

    fn has_activation(&self) -> (b: bool) {
        false
    }

    fn feed_forward_shape(&self, x: usize) -> (len: Result<usize, Error>) {
        if x == self.neurons {
            Ok(x)
        } else {
            Err(Error::ShapeMismatch)
        }
    }

    fn back_prop_shape(&self, nabla: usize, x: usize) -> (len: Result<usize, Error>) {
        Err(Error::InvalidOperation)
    }
}

/// A layer that applies the logistic function element-wise.
pub struct SigmoidLayer {
    neurons: usize,
}

impl SigmoidLayer {
    pub fn new(neurons: usize) -> (layer: Self)
        ensures
            layer.neurons() == neurons,
    {
        SigmoidLayer { neurons }
    }
}

impl Layer for SigmoidLayer {
    closed spec fn neurons(&self) -> nat {
        self.neurons as nat
    }

    open spec fn differentiable(&self) -> bool {
        true
    }

    fn output_shape(&self) -> (n: usize) {
        self.neurons
    }

    fn input_shape(&self) -> (n: usize) {
        self.neurons
    }

    fn has_activation(&self) -> (b: bool) {
        true
    }

    fn feed_forward_shape(&self, x: usize) -> (len: Result<usize, Error>) {
        if x == self.neurons {
            Ok(x)
        } else {
            Err(Error::ShapeMismatch)
        }
    }

    fn back_prop_shape(&self, nabla: usize, x: usize) -> (len: Result<usize, Error>) {
        if nabla == self.neurons && x == self.neurons {
            Ok(nabla)
        } else {
            Err(Error::ShapeMismatch)
        }
    }
}

} // verus!
