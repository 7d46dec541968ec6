//! The topology of a multi-layer perceptron and the shapes of everything that
//! is sized by it: parameters, activation traces and gradients.

use vstd::prelude::*;
use crate::cost::Cost;
use crate::error::Error;
use crate::layer::{InputLayer, Layer, SigmoidLayer};
use crate::shape::{elementwise, matvec, outer, shape_of, transpose};

verus! {

/// Lengths of the vectors recorded by one forward pass.
pub struct TraceShape {
    /// One entry per transition: the length of `W[i] * a[i] + b[i]`.
    pub pre_activations: Vec<usize>,
    /// One entry per layer, the input layer included.
    pub activations: Vec<usize>,
}

/// Shapes of a gradient accumulator: one weight matrix and one bias vector per
/// transition.
pub struct GradientShape {
    pub weights: Vec<(usize, usize)>,
    pub biases: Vec<usize>,
}

/// An ordered stack of layers: one input layer followed by at least one
/// activation-bearing layer. Transition `i` leads from layer `i` to layer
/// `i + 1`.
pub struct Network {
    input: InputLayer,
    layers: Vec<SigmoidLayer>,
}

impl Network {
    #[verifier::type_invariant]
    spec fn has_transition(self) -> bool {
        1 <= self.layers@.len() < usize::MAX
    }

    /// The neuron count of every layer, input layer first.
    pub closed spec fn sizes(&self) -> Seq<nat> {
        seq![self.input.neurons()] + Seq::new(
            self.layers@.len(),
            |i: int| self.layers@[i].neurons(),
        )
    }

    /// A network has at least one transition.
    pub open spec fn wf(&self) -> bool {
        self.sizes().len() >= 2
    }

    /// Number of transitions between adjacent layers.
    pub open spec fn spec_transitions(&self) -> nat {
        (self.sizes().len() - 1) as nat
    }

    /// Shape `(rows, columns)` of the weight matrix of transition `i`.
    pub open spec fn spec_weight_shape(&self, i: int) -> (nat, nat) {
        (self.sizes()[i + 1], self.sizes()[i])
    }

    /// Length of the bias vector of transition `i`.
    pub open spec fn spec_bias_shape(&self, i: int) -> nat {
        self.sizes()[i + 1]
    }

    /// Whether `trace` has the lengths that a forward pass through this
    /// network records.
    pub open spec fn fits_trace(&self, trace: TraceShape) -> bool {
        &&& trace.activations@.len() == self.sizes().len()
        &&& trace.pre_activations@.len() == self.spec_transitions()
        &&& forall|i: int|
            0 <= i < self.sizes().len() ==> #[trigger] trace.activations@[i] as nat
                == self.sizes()[i]
        &&& forall|i: int|
            0 <= i < self.spec_transitions() ==> #[trigger] trace.pre_activations@[i] as nat
                == self.sizes()[i + 1]
    }

    /// Whether `gradient` has, transition by transition, the shapes of this
    /// network's parameters.
    pub open spec fn fits_gradient(&self, gradient: GradientShape) -> bool {
        &&& gradient.weights@.len() == self.spec_transitions()
        &&& gradient.biases@.len() == self.spec_transitions()
        &&& forall|i: int|
            0 <= i < self.spec_transitions() ==> shape_of(#[trigger] gradient.weights@[i])
                == self.spec_weight_shape(i)
        &&& forall|i: int|
            0 <= i < self.spec_transitions() ==> #[trigger] gradient.biases@[i] as nat
                == self.spec_bias_shape(i)
    }

    /// Builds the network whose layer `i` has `layers[i]` neurons. Fewer than
    /// two layers leave no transition to train and are refused.
    pub fn new(layers: &Vec<usize>) -> (net: Result<Self, Error>)
        ensures
            match net {
                Ok(n) => layers@.len() >= 2 && n.wf() && n.sizes() == layers@.map_values(
                    |n: usize| n as nat,
                ),
                Err(e) => layers@.len() < 2 && e == Error::InvalidTopology,
            },
    {
        if layers.len() < 2 {
            return Err(Error::InvalidTopology);
        }
        let input = InputLayer::new(layers[0]);
        let mut rest: Vec<SigmoidLayer> = Vec::new();
        let mut i: usize = 1;
        while i < layers.len()
            invariant
                1 <= i <= layers.len(),
                rest@.len() == i - 1,
                forall|k: int| 0 <= k < rest@.len() ==> rest@[k].neurons() == layers@[k + 1],
            decreases layers.len() - i,
        {
            rest.push(SigmoidLayer::new(layers[i]));
            i += 1;
        }
        let net = Network { input, layers: rest };
        assert(net.sizes() =~= layers@.map_values(|n: usize| n as nat));
        Ok(net)
    }

    /// Builds the network from its layers: the input layer and the layers
    /// that follow it, of which there must be at least one.
    pub fn from_layers(input: InputLayer, layers: Vec<SigmoidLayer>) -> (net: Result<Self, Error>)
        requires
            layers@.len() < usize::MAX,
        ensures
            match net {
                Ok(n) => {
                    &&& layers@.len() >= 1
                    &&& n.wf()
                    &&& n.sizes().len() == layers@.len() + 1
                    &&& n.sizes()[0] == input.neurons()
                    &&& forall|i: int|
                        0 <= i < layers@.len() ==> n.sizes()[i + 1] == layers@[i].neurons()
                },
                Err(e) => layers@.len() == 0 && e == Error::InvalidTopology,
            },
    {
        if layers.len() == 0 {
            return Err(Error::InvalidTopology);
        }
        Ok(Network { input, layers })
    }

    /// The canonical digit classifier: 784 inputs, 30 hidden neurons, 10
    /// outputs.
    pub fn new_mnist() -> (net: Self)
        ensures
            net.wf(),
            net.sizes() == seq![784nat, 30nat, 10nat],
    {
        let mut layers: Vec<SigmoidLayer> = Vec::new();
        layers.push(SigmoidLayer::new(30));
        layers.push(SigmoidLayer::new(10));
        let net = Network { input: InputLayer::new(784), layers };
        assert(net.sizes() =~= seq![784nat, 30nat, 10nat]);
        net
    }

    /// A small network for experiments: 5 inputs, 3 hidden neurons, 1 output.
    pub fn new_test() -> (net: Self)
        ensures
            net.wf(),
            net.sizes() == seq![5nat, 3nat, 1nat],
    {
        let mut layers: Vec<SigmoidLayer> = Vec::new();
        layers.push(SigmoidLayer::new(3));
        layers.push(SigmoidLayer::new(1));
        let net = Network { input: InputLayer::new(5), layers };
        assert(net.sizes() =~= seq![5nat, 3nat, 1nat]);
        net
    }

    /// Number of layers, the input layer included.
    pub fn depth(&self) -> (n: usize)
        ensures
            self.wf(),
            n == self.sizes().len(),
    {
        proof {
            use_type_invariant(self);
        }
        self.layers.len() + 1
    }

    /// Number of transitions, that is of weight matrices and of bias vectors.
    pub fn transitions(&self) -> (n: usize)
        ensures
            self.wf(),
            n == self.spec_transitions(),
    {
        proof {
            use_type_invariant(self);
        }
        self.layers.len()
    }

    /// The first layer.
    pub fn input_layer(&self) -> (layer: &InputLayer)
        ensures
            self.wf(),
            layer.neurons() == self.sizes()[0],
    {
        proof {
            use_type_invariant(self);
        }
        &self.input
    }

    /// Layer `i` of those that bear an activation: every layer but the first.
    pub fn layer(&self, i: usize) -> (layer: &SigmoidLayer)
        requires
            1 <= i < self.sizes().len(),
        ensures
            layer.neurons() == self.sizes()[i as int],
    {
        &self.layers[i - 1]
    }

    /// Neuron count of layer `i`.
    pub fn layer_size(&self, i: usize) -> (n: usize)
        requires
            i < self.sizes().len(),
        ensures
            n == self.sizes()[i as int],
    {
        if i == 0 {
            self.input.output_shape()
        } else {
            self.layers[i - 1].output_shape()
        }
    }

    /// Shape `(rows, columns)` of the weight matrix of transition `i`: as many
    /// rows as layer `i + 1` takes inputs, as many columns as layer `i` gives
    /// outputs.
    pub fn weight_shape(&self, i: usize) -> (shape: (usize, usize))
        requires
            i < self.spec_transitions(),
        ensures
            shape_of(shape) == self.spec_weight_shape(i as int),
    {
        let prev_n = if i == 0 {
            self.input.output_shape()
        } else {
            self.layers[i - 1].output_shape()
        };
        let cur_n = self.layers[i].input_shape();
        (cur_n, prev_n)
    }

    /// Length of the bias vector of transition `i`.
    pub fn bias_shape(&self, i: usize) -> (n: usize)
        requires
            i < self.spec_transitions(),
        ensures
            n == self.spec_bias_shape(i as int),
    {
        self.layers[i].input_shape()
    }

    /// Number of entries of the weight matrix of transition `i`, or `None`
    /// where that number is beyond `usize`.
    pub fn weight_len(&self, i: usize) -> (len: Option<usize>)
        requires
            i < self.spec_transitions(),
        ensures
            len.is_some() <==> self.sizes()[i + 1] * self.sizes()[i as int] <= usize::MAX,
            len matches Some(n) ==> n == self.sizes()[i + 1] * self.sizes()[i as int],
    {
        let (rows, cols) = self.weight_shape(i);
        rows.checked_mul(cols)
    }

    /// Whether a vector of length `len` can be fed to the first layer.
    pub fn accepts_input(&self, len: usize) -> (ok: bool)
        ensures
            self.wf(),
            ok == (len as nat == self.sizes()[0]),
    {
        proof {
            use_type_invariant(self);
        }
        len == self.input.input_shape()
    }

    /// Lengths of the vectors that forward propagation of an input of length
    /// `input_len` records: `z[i] = W[i] * a[i] + b[i]` and
    /// `a[i + 1] = layer[i + 1](z[i])`, with `a[0]` the input.
    ///
    /// A shape mismatch exactly when the input does not have the size of the
    /// first layer; no later step can fail.
    pub fn trace_shape(&self, input_len: usize) -> (trace: Result<TraceShape, Error>)
        ensures
            self.wf(),
            match trace {
                Ok(t) => input_len as nat == self.sizes()[0] && self.fits_trace(t),
                Err(e) => input_len as nat != self.sizes()[0] && e == Error::ShapeMismatch,
            },
    {
        proof {
            use_type_invariant(self);
        }
        let first = self.input.feed_forward_shape(input_len)?;
        let n = self.transitions();
        let mut activations: Vec<usize> = Vec::new();
        let mut pre_activations: Vec<usize> = Vec::new();
        activations.push(first);
        let mut output = first;
        let mut i: usize = 0;
        while i < n
            invariant
                self.wf(),
                n == self.spec_transitions(),
                n == self.layers@.len(),
                0 <= i <= n,
                activations@.len() == i + 1,
                pre_activations@.len() == i,
                output as nat == self.sizes()[i as int],
                input_len as nat == self.sizes()[0],
                forall|k: int| 0 <= k <= i ==> #[trigger] activations@[k] as nat == self.sizes()[k],
                forall|k: int|
                    0 <= k < i ==> #[trigger] pre_activations@[k] as nat == self.sizes()[k + 1],
            decreases n - i,
        {
            let weighted = matvec(self.weight_shape(i), output)?;
            let x = elementwise(weighted, self.bias_shape(i))?;
            output = self.layers[i].feed_forward_shape(x)?;
            pre_activations.push(x);
            activations.push(output);
            i += 1;
        }
        Ok(TraceShape { pre_activations, activations })
    }

    /// Shapes of the gradients that backward propagation derives from a trace
    /// and a target of length `target_len` under the given cost.
    ///
    /// The error signal starts as the gradient of the cost at the final
    /// activation. Walking from the last transition to the first, layer
    /// `i + 1` turns the signal into the error `delta` at its pre-activation
    /// `z[i]`; the weight gradient of transition `i` is the outer product of
    /// `delta` and `a[i]`, the bias gradient is `delta`, and the signal handed
    /// further back is the product of the transposed `W[i]` and `delta`.
    ///
    /// A shape mismatch exactly when the trace is not one of this network or
    /// the target does not have the size of the output layer. Otherwise every
    /// gradient has the shape of the parameter it belongs to.
    pub fn gradient_shape<C: Cost>(&self, trace: &TraceShape, target_len: usize, cost: &C) -> (gradient:
        Result<GradientShape, Error>)
        ensures
            self.wf(),
            match gradient {
                Ok(g) => {
                    &&& self.fits_trace(*trace)
                    &&& target_len as nat == self.sizes().last()
                    &&& self.fits_gradient(g)
                },
                Err(e) => {
                    &&& !(self.fits_trace(*trace) && target_len as nat == self.sizes().last())
                    &&& e == Error::ShapeMismatch
                },
            },
    {
        proof {
            use_type_invariant(self);
        }
        let n = self.transitions();
        if trace.pre_activations.len() != n || trace.activations.len() != n + 1 {
            return Err(Error::ShapeMismatch);
        }
        let mut nabla = cost.d_cost_shape(trace.activations[n], target_len)?;
        let mut weights: Vec<(usize, usize)> = Vec::new();
        let mut biases: Vec<usize> = Vec::new();
        let mut k: usize = 0;
        while k < n
            invariant
                k <= n,
                weights@.len() == k,
                biases@.len() == k,
            decreases n - k,
        {
            weights.push((0, 0));
            biases.push(0);
            k += 1;
        }
        let mut i: usize = n;
        while i > 0
            invariant
                self.wf(),
                n == self.spec_transitions(),
                n == self.layers@.len(),
                0 <= i <= n,
                weights@.len() == n,
                biases@.len() == n,
                trace.pre_activations@.len() == n,
                trace.activations@.len() == n + 1,
                trace.activations@[n as int] == target_len,
                i == n ==> nabla == trace.activations@[n as int],
                i < n ==> nabla as nat == self.sizes()[i as int],
                i < n ==> trace.activations@[n as int] as nat == self.sizes()[n as int],
                forall|j: int|
                    i <= j < n ==> shape_of(#[trigger] weights@[j]) == self.spec_weight_shape(j),
                forall|j: int| i <= j < n ==> #[trigger] biases@[j] as nat == self.sizes()[j + 1],
                forall|j: int|
                    i <= j < n ==> #[trigger] trace.activations@[j] as nat == self.sizes()[j],
                forall|j: int|
                    i <= j < n ==> #[trigger] trace.pre_activations@[j] as nat
                        == self.sizes()[j + 1],
            decreases i,
        {
            i -= 1;
            let delta = self.layers[i].back_prop_shape(nabla, trace.pre_activations[i])?;
            let (rows, cols) = self.weight_shape(i);
            nabla = matvec(transpose((rows, cols)), delta)?;
            let weight_gradient = outer(delta, trace.activations[i]);
            if weight_gradient.0 != rows || weight_gradient.1 != cols || delta != self.bias_shape(
                i,
            ) {
                return Err(Error::ShapeMismatch);
            }
            weights.set(i, weight_gradient);
            biases.set(i, delta);
        }
        Ok(GradientShape { weights, biases })
    }

    /// The shapes of this network's parameters, which are also those of a
    /// fresh gradient accumulator.
    pub fn parameter_shape(&self) -> (shape: GradientShape)
        ensures
            self.wf(),
            self.fits_gradient(shape),
    {
        let n = self.transitions();
        let mut weights: Vec<(usize, usize)> = Vec::new();
        let mut biases: Vec<usize> = Vec::new();
        let mut i: usize = 0;
        while i < n
            invariant
                self.wf(),
                n == self.spec_transitions(),
                0 <= i <= n,
                weights@.len() == i,
                biases@.len() == i,
                forall|j: int|
                    0 <= j < i ==> shape_of(#[trigger] weights@[j]) == self.spec_weight_shape(j),
                forall|j: int| 0 <= j < i ==> #[trigger] biases@[j] as nat == self.sizes()[j + 1],
            decreases n - i,
        {
            weights.push(self.weight_shape(i));
            biases.push(self.bias_shape(i));
            i += 1;
        }
        GradientShape { weights, biases }
    }

    /// Whether `gradient` can be added to, or subtracted from, this network's
    /// parameters: every entry has the shape of its parameter.
    pub fn accepts_gradient(&self, gradient: &GradientShape) -> (ok: bool)
        ensures
            self.wf(),
            ok == self.fits_gradient(*gradient),
    {
        let n = self.transitions();
        if gradient.weights.len() != n || gradient.biases.len() != n {
            return false;
        }
        let mut i: usize = 0;
        while i < n
            invariant
                self.wf(),
                n == self.spec_transitions(),
                0 <= i <= n,
                gradient.weights@.len() == n,
                gradient.biases@.len() == n,
                forall|j: int|
                    0 <= j < i ==> shape_of(#[trigger] gradient.weights@[j])
                        == self.spec_weight_shape(j),
                forall|j: int|
                    0 <= j < i ==> #[trigger] gradient.biases@[j] as nat == self.sizes()[j + 1],
            decreases n - i,
        {
            let (rows, cols) = self.weight_shape(i);
            let weight = gradient.weights[i];
            if weight.0 != rows || weight.1 != cols || gradient.biases[i] != self.bias_shape(i) {
                return false;
            }
            i += 1;
        }
        true
    }
}

} // verus!
