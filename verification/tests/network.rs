use feedforward::shape::{elementwise, matvec, outer, transpose};
use feedforward::{
    Cost, Error, GradientShape, InputLayer, Layer, Network, SigmoidLayer, TraceShape, MSE,
};

#[test]
fn test_create_mnist_network() {
    let _network = Network::new_mnist();
}

#[test]
fn network_test_create_mnist_network_size() {
    let network = Network::new_mnist();
    assert_eq!(network.transitions(), 2);
    assert_eq!(network.weight_shape(0).0, 30);
    assert_eq!(network.weight_shape(0).1, 784);
    assert_eq!(network.weight_shape(1).0, 10);
    assert_eq!(network.weight_shape(1).1, 30);
    assert_eq!(network.bias_shape(0), 30);
    assert_eq!(network.bias_shape(1), 10);
}

#[test]
fn test_new() {
    let network = Network::new(&vec![800 as usize, 3 as usize, 10 as usize]).unwrap();
    assert_eq!(network.depth(), 3);
    assert_eq!(network.transitions(), 2);
    assert_eq!(network.weight_shape(0).0, 3);
    assert_eq!(network.weight_shape(0).1, 800);
    assert_eq!(network.weight_shape(1).0, 10);
    assert_eq!(network.weight_shape(1).1, 3);
    assert_eq!(network.bias_shape(0), 3);
    assert_eq!(network.bias_shape(1), 10);
}

#[test]
fn test_feed_forward() {
    let network = Network::new_test();
    let trace = network.trace_shape(5).unwrap();
    let (xs, activations) = (trace.pre_activations, trace.activations);
    assert_eq!(activations.len(), 3);
    assert_eq!(xs.len(), 2);
    assert_eq!(activations[0], 5);
    assert_eq!(activations[1], 3);
    assert_eq!(activations[2], 1);
    assert_eq!(xs[0], 3);
    assert_eq!(xs[1], 1);
}

#[test]
fn layers_report_their_neuron_count() {
    let input = InputLayer::new(784);
    assert_eq!(input.input_shape(), 784);
    assert_eq!(input.output_shape(), 784);
    assert!(!input.has_activation());
    let hidden = SigmoidLayer::new(30);
    assert_eq!(hidden.input_shape(), 30);
    assert_eq!(hidden.output_shape(), 30);
    assert!(hidden.has_activation());
}

#[test]
fn network_from_layers_matches_network_from_sizes() {
    let a = Network::from_layers(
        InputLayer::new(4),
        vec![SigmoidLayer::new(7), SigmoidLayer::new(2)],
    )
    .unwrap();
    let b = Network::new(&vec![4, 7, 2]).unwrap();
    assert_eq!(a.depth(), b.depth());
    for i in 0..3 {
        assert_eq!(a.layer_size(i), b.layer_size(i));
    }
    assert_eq!(a.layer_size(0), 4);
    assert_eq!(a.layer_size(1), 7);
    assert_eq!(a.layer_size(2), 2);
}

#[test]
fn smallest_network_has_one_transition() {
    let network = Network::new(&vec![1, 4]).unwrap();
    assert_eq!(network.depth(), 2);
    assert_eq!(network.transitions(), 1);
    assert_eq!(network.weight_shape(0), (4, 1));
    assert_eq!(network.bias_shape(0), 4);
    assert_eq!(network.weight_len(0), Some(4));
}

#[test]
fn weight_len_is_rows_times_columns() {
    let network = Network::new_mnist();
    assert_eq!(network.weight_len(0), Some(23520));
    assert_eq!(network.weight_len(1), Some(300));
}

#[test]
fn weight_len_beyond_usize_is_none() {
    let network = Network::new(&vec![usize::MAX, 2]).unwrap();
    assert_eq!(network.weight_shape(0), (2, usize::MAX));
    assert_eq!(network.weight_len(0), None);
}

#[test]
fn input_of_wrong_length_is_refused() {
    let network = Network::new(&vec![3, 5, 6, 7, 4]).unwrap();
    assert!(network.accepts_input(3));
    assert!(!network.accepts_input(4));
    assert!(!network.accepts_input(0));
    assert!(matches!(network.trace_shape(4), Err(Error::ShapeMismatch)));
    assert!(matches!(network.trace_shape(0), Err(Error::ShapeMismatch)));
}

#[test]
fn trace_follows_the_layer_sizes() {
    let network = Network::new(&vec![3, 5, 6, 7, 4]).unwrap();
    let trace = network.trace_shape(3).unwrap();
    assert_eq!(trace.activations, vec![3, 5, 6, 7, 4]);
    assert_eq!(trace.pre_activations, vec![5, 6, 7, 4]);
}

#[test]
fn gradient_shapes_match_parameter_shapes() {
    let network = Network::new(&vec![3, 5, 6, 7, 4]).unwrap();
    let trace = network.trace_shape(3).unwrap();
    let gradient = network.gradient_shape(&trace, 4, &MSE {}).unwrap();
    assert_eq!(gradient.weights.len(), network.transitions());
    assert_eq!(gradient.biases.len(), network.transitions());
    for i in 0..network.transitions() {
        assert_eq!(gradient.weights[i], network.weight_shape(i));
        assert_eq!(gradient.biases[i], network.bias_shape(i));
    }
    assert_eq!(gradient.weights, vec![(5, 3), (6, 5), (7, 6), (4, 7)]);
    assert_eq!(gradient.biases, vec![5, 6, 7, 4]);
    assert!(network.accepts_gradient(&gradient));
}

#[test]
fn gradient_needs_a_target_of_output_size() {
    let network = Network::new_mnist();
    let trace = network.trace_shape(784).unwrap();
    assert!(network.gradient_shape(&trace, 10, &MSE {}).is_ok());
    assert!(matches!(network.gradient_shape(&trace, 9, &MSE {}), Err(Error::ShapeMismatch)));
    assert!(matches!(network.gradient_shape(&trace, 784, &MSE {}), Err(Error::ShapeMismatch)));
}

#[test]
fn gradient_needs_a_trace_of_this_network() {
    let network = Network::new(&vec![1, 10, 4]).unwrap();
    let other = Network::new(&vec![2, 10, 4]).unwrap();
    let foreign = other.trace_shape(2).unwrap();
    assert!(matches!(network.gradient_shape(&foreign, 4, &MSE {}), Err(Error::ShapeMismatch)));
    let short = TraceShape { pre_activations: vec![10], activations: vec![1, 10] };
    assert!(matches!(network.gradient_shape(&short, 4, &MSE {}), Err(Error::ShapeMismatch)));
    let bent = TraceShape { pre_activations: vec![9, 4], activations: vec![1, 10, 4] };
    assert!(matches!(network.gradient_shape(&bent, 4, &MSE {}), Err(Error::ShapeMismatch)));
    let good = TraceShape { pre_activations: vec![10, 4], activations: vec![1, 10, 4] };
    assert!(network.gradient_shape(&good, 4, &MSE {}).is_ok());
}

#[test]
fn gradient_of_transposed_shape_is_refused() {
    let network = Network::new(&vec![1, 10, 4]).unwrap();
    let good = GradientShape { weights: vec![(10, 1), (4, 10)], biases: vec![10, 4] };
    assert!(network.accepts_gradient(&good));
    let transposed = GradientShape { weights: vec![(1, 10), (4, 10)], biases: vec![10, 4] };
    assert!(!network.accepts_gradient(&transposed));
    let wrong_bias = GradientShape { weights: vec![(10, 1), (4, 10)], biases: vec![10, 10] };
    assert!(!network.accepts_gradient(&wrong_bias));
    let short = GradientShape { weights: vec![(10, 1)], biases: vec![10] };
    assert!(!network.accepts_gradient(&short));
}

#[test]
fn shape_rules() {
    assert_eq!(matvec((30, 784), 784), Ok(30));
    assert_eq!(matvec((30, 784), 30), Err(Error::ShapeMismatch));
    assert_eq!(elementwise(10, 10), Ok(10));
    assert_eq!(elementwise(10, 9), Err(Error::ShapeMismatch));
    assert_eq!(outer(30, 784), (30, 784));
    assert_eq!(transpose((30, 784)), (784, 30));
}

#[test]
fn parameter_shape_lists_every_transition() {
    let network = Network::new_mnist();
    let shape = network.parameter_shape();
    assert_eq!(shape.weights, vec![(30, 784), (10, 30)]);
    assert_eq!(shape.biases, vec![30, 10]);
    assert!(network.accepts_gradient(&shape));
}

#[test]
fn network_hands_out_its_layers() {
    let network = Network::new_test();
    assert_eq!(network.input_layer().output_shape(), 5);
    assert!(!network.input_layer().has_activation());
    assert_eq!(network.layer(1).input_shape(), 3);
    assert_eq!(network.layer(2).input_shape(), 1);
    assert!(network.layer(2).has_activation());
}

#[test]
fn layer_keeps_the_length_of_what_it_is_fed() {
    assert_eq!(InputLayer::new(5).feed_forward_shape(5), Ok(5));
    assert_eq!(InputLayer::new(5).feed_forward_shape(4), Err(Error::ShapeMismatch));
    assert_eq!(SigmoidLayer::new(3).feed_forward_shape(3), Ok(3));
    assert_eq!(SigmoidLayer::new(3).feed_forward_shape(5), Err(Error::ShapeMismatch));
}

#[test]
fn input_layer_hands_no_error_back() {
    assert_eq!(InputLayer::new(5).back_prop_shape(5, 5), Err(Error::InvalidOperation));
    assert_eq!(InputLayer::new(5).back_prop_shape(4, 5), Err(Error::InvalidOperation));
    assert_eq!(InputLayer::new(0).back_prop_shape(0, 0), Err(Error::InvalidOperation));
}

#[test]
fn sigmoid_layer_hands_back_an_error_of_its_size() {
    let layer = SigmoidLayer::new(3);
    assert_eq!(layer.back_prop_shape(3, 3), Ok(3));
    assert_eq!(layer.back_prop_shape(3, 4), Err(Error::ShapeMismatch));
    assert_eq!(layer.back_prop_shape(4, 3), Err(Error::ShapeMismatch));
}

#[test]
fn cost_gradient_has_the_length_of_the_output() {
    let cost = MSE {};
    assert_eq!(cost.d_cost_shape(3, 3), Ok(3));
    assert_eq!(cost.d_cost_shape(3, 4), Err(Error::ShapeMismatch));
    assert_eq!(cost.d_cost_shape(0, 0), Ok(0));
}

#[test]
fn network_without_transition_is_refused() {
    assert!(matches!(Network::new(&vec![784]), Err(Error::InvalidTopology)));
    assert!(matches!(Network::new(&vec![]), Err(Error::InvalidTopology)));
    assert!(matches!(
        Network::from_layers(InputLayer::new(784), vec![]),
        Err(Error::InvalidTopology)
    ));
    assert!(Network::new(&vec![784, 10]).is_ok());
    assert!(Network::from_layers(InputLayer::new(784), vec![SigmoidLayer::new(10)]).is_ok());
}
