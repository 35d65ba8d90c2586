use rand::Rng;
use snake_ai::network::{clear_below, Activation, NetworkError, NeuralNetwork, NeuralNetworkOptions, Real, ReLU, Softmax};

#[derive(Clone, Copy, Debug, PartialEq)]
struct F(f64);

impl Real for F {
    fn zero() -> Self {
        F(0.0)
    }
    fn one() -> Self {
        F(1.0)
    }
    fn negated(self) -> Self {
        F(-self.0)
    }
    fn plus(self, other: Self) -> Self {
        F(self.0 + other.0)
    }
    fn times(self, other: Self) -> Self {
        F(self.0 * other.0)
    }
    fn divided_by(self, other: Self) -> Self {
        F(self.0 / other.0)
    }
    fn exp(self) -> Self {
        F(self.0.exp())
    }
    fn sqrt(self) -> Self {
        F(self.0.sqrt())
    }
    fn from_count(n: u64) -> Self {
        F(n as f64)
    }
    fn rank(self) -> i64 {
        // the key of f64::total_cmp: for numbers it orders as `<` does
        let bits = self.0.to_bits() as i64;
        bits ^ ((((bits >> 63) as u64) >> 1) as i64)
    }
}

fn floats(v: &[f64]) -> Vec<F> {
    v.iter().map(|x| F(*x)).collect()
}

fn assert_equal_with_error(actual: f64, expected: f64, error: f64) {
    assert!(
        actual >= expected - error && actual <= expected + error,
        "{actual} should be in {} - {}",
        expected - error,
        expected + error
    );
}

#[test]
fn new_neural_network_constructs_correct_network() {
    let layers_sizes_vec = vec![4, 3, 2];
    let options = NeuralNetworkOptions {
        layers_sizes_vec: layers_sizes_vec.clone(),
        layers_functions: vec![Activation::ReLU, Activation::Softmax],
    };
    let neural_network = match NeuralNetwork::new(options, || F(rand::thread_rng().gen_range(-1.0..=1.0))) {
        Ok(network) => network,
        Err(_) => panic!("Function should return Ok"),
    };
    let expected_layers_sizes_len = 18;
    assert_eq!(
        neural_network.weights().len(),
        expected_layers_sizes_len,
        "There should be {} weights",
        expected_layers_sizes_len
    );
    assert_eq!(neural_network.layer_sizes(), &layers_sizes_vec, "The sizes should be the same");
    neural_network
        .weights()
        .iter()
        .for_each(|weight| assert!(weight.0 <= 1.0 && weight.0 >= -1.0, "Every weight should be between -1.0 and 1.0"));
}

#[test]
fn new_neural_network_should_return_error_on_incorrect_options() {
    let options = NeuralNetworkOptions {
        layers_sizes_vec: vec![4, 3, 2],
        layers_functions: vec![Activation::ReLU],
    };
    assert!(NeuralNetwork::new(options, || F(0.5)).is_err(), "There should be an error");
}

#[test]
fn new_with_weights_should_construct_correct_neural_network() {
    let layers_sizes_vec = vec![4, 3, 2];
    let layers_weights = vec![F(1.0); 18];
    let options = NeuralNetworkOptions {
        layers_sizes_vec: layers_sizes_vec.clone(),
        layers_functions: vec![Activation::ReLU, Activation::Softmax],
    };
    let neural_network = match NeuralNetwork::new_with_weights(layers_weights.clone(), options) {
        Ok(network) => network,
        Err(_) => panic!("Function should return Ok"),
    };
    assert_eq!(neural_network.weights(), &layers_weights, "Layers weights should be the same");
    assert_eq!(neural_network.layer_sizes(), &layers_sizes_vec, "The sizes should be the same")
}

#[test]
fn new_with_weights_should_return_err_on_incorrect_options() {
    let options = NeuralNetworkOptions {
        layers_sizes_vec: vec![4, 3, 2],
        layers_functions: vec![Activation::ReLU],
    };
    assert!(NeuralNetwork::new_with_weights(vec![F(1.0); 18], options).is_err(), "There should be an error");
}

#[test]
fn new_with_weights_should_return_err_on_incorrect_layers_weights() {
    let options = NeuralNetworkOptions {
        layers_sizes_vec: vec![4, 3, 2],
        layers_functions: vec![Activation::ReLU, Activation::Softmax],
    };
    assert!(NeuralNetwork::new_with_weights(vec![F(1.0); 20], options).is_err(), "There should be an error");
}

#[test]
fn get_output_should_calculate_correctly() {
    let options = NeuralNetworkOptions {
        layers_sizes_vec: vec![3, 2, 2],
        layers_functions: vec![Activation::ReLU, Activation::Softmax],
    };
    let layers_weights = floats(&[1.0, 2.0, 0.5, 0.5, 1.0, 2.0, 1.0, 1.0, 0.5, 1.0]);
    let neural_network = match NeuralNetwork::new_with_weights(layers_weights, options) {
        Ok(network) => network,
        Err(_) => panic!("Function should return Ok"),
    };
    let expected_output = vec![0.96267_f64, 0.03732_f64];
    let output = match neural_network.get_output(floats(&[1.0, 2.0, 3.0])) {
        Ok(output) => output,
        Err(_) => panic!("Function should return Ok"),
    };
    assert_eq!(output.len(), 2);
    expected_output
        .iter()
        .zip(output.iter())
        .for_each(|(a, b)| assert_equal_with_error(b.0, *a, 0.0005));
}

#[test]
fn shape_errors_name_the_mismatch() {
    let bad_shape = NeuralNetworkOptions {
        layers_sizes_vec: vec![4, 3, 2],
        layers_functions: vec![Activation::ReLU],
    };
    assert_eq!(
        NeuralNetwork::new_with_weights(vec![F(1.0); 18], bad_shape).err(),
        Some(NetworkError::ShapeMismatch { layers: 3, activations: 1 })
    );
    let no_layers = NeuralNetworkOptions { layers_sizes_vec: vec![], layers_functions: vec![] };
    assert_eq!(
        NeuralNetwork::new_with_weights(Vec::<F>::new(), no_layers).err(),
        Some(NetworkError::ShapeMismatch { layers: 0, activations: 0 })
    );
    let good = NeuralNetworkOptions {
        layers_sizes_vec: vec![4, 3, 2],
        layers_functions: vec![Activation::ReLU, Activation::Softmax],
    };
    assert_eq!(
        NeuralNetwork::new_with_weights(vec![F(1.0); 17], good).err(),
        Some(NetworkError::WeightCountMismatch { weights: 17 })
    );
}

#[test]
fn input_of_wrong_length_is_rejected() {
    let options = NeuralNetworkOptions {
        layers_sizes_vec: vec![3, 2, 2],
        layers_functions: vec![Activation::ReLU, Activation::Softmax],
    };
    let network = NeuralNetwork::new_with_weights(vec![F(1.0); 10], options).unwrap();
    assert_eq!(
        network.get_output(floats(&[1.0, 2.0])).err(),
        Some(NetworkError::InputSizeMismatch { expected: 3, actual: 2 })
    );
}

#[test]
fn output_has_last_layer_length() {
    let options = NeuralNetworkOptions {
        layers_sizes_vec: vec![5, 4, 3, 7],
        layers_functions: vec![Activation::ReLU, Activation::ReLU, Activation::Softmax],
    };
    let network = NeuralNetwork::new(options, || F(0.1)).unwrap();
    assert_eq!(network.weights().len(), 5 * 4 + 4 * 3 + 3 * 7);
    let out = network.get_output(floats(&[1.0, -1.0, 2.0, 0.0, 3.0])).unwrap();
    assert_eq!(out.len(), 7);
}

#[test]
fn single_layer_network_returns_its_input() {
    let options = NeuralNetworkOptions { layers_sizes_vec: vec![3], layers_functions: vec![] };
    let network = NeuralNetwork::new_with_weights(Vec::<F>::new(), options).unwrap();
    assert_eq!(network.get_output(floats(&[1.0, 2.0, 3.0])).unwrap(), floats(&[1.0, 2.0, 3.0]));
}

#[test]
fn softmax_outputs_sum_to_one() {
    let mut v = floats(&[1.0, -2.0, 0.5, 3.0, 0.0]);
    Softmax.apply(&mut v);
    let sum: f64 = v.iter().map(|x| x.0).sum();
    assert_equal_with_error(sum, 1.0, 1e-6);
    assert!(v.iter().all(|x| x.0 >= 0.0 && x.0 <= 1.0));
    assert_equal_with_error(v[3].0, 3.0_f64.exp() / (1.0_f64.exp() + (-2.0_f64).exp() + 0.5_f64.exp() + 3.0_f64.exp() + 1.0), 1e-12);
}

#[test]
fn relu_clears_negatives_only() {
    let mut v = floats(&[-1.5, 0.0, 2.5, -0.1, 7.0]);
    ReLU.apply(&mut v);
    assert_eq!(v, floats(&[0.0, 0.0, 2.5, 0.0, 7.0]));
}

#[test]
fn update_weights_checks_length() {
    let options = NeuralNetworkOptions {
        layers_sizes_vec: vec![3, 2, 2],
        layers_functions: vec![Activation::ReLU, Activation::Softmax],
    };
    let mut network = NeuralNetwork::new_with_weights(vec![F(1.0); 10], options).unwrap();
    assert_eq!(network.update_weights(vec![F(2.0); 9]), Err(NetworkError::WeightCountMismatch { weights: 9 }));
    assert_eq!(network.weights(), &vec![F(1.0); 10]);
    assert_eq!(network.update_weights(vec![F(2.0); 10]), Ok(()));
    assert_eq!(network.weights(), &vec![F(2.0); 10]);
}

#[test]
fn clear_below_replaces_only_low_keys() {
    let mut v = vec![5, 6, 7, 8];
    clear_below(&mut v, &vec![-1, 0, 3, -7], 0, 0);
    assert_eq!(v, vec![0, 6, 7, 0]);
}
