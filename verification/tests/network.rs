use std::cell::Cell;

use network::activation::{sigmoid, sigmoid_derivative, swish, swish_derivative};
use network::algebra::Vector;
use network::data::DataSet;
use network::network::{slopes_countable, weights_countable, Network, NetworkError};
use network::scalar::Scalar;

#[derive(Clone, Copy, Debug, PartialEq)]
struct Real(f64);

impl Scalar for Real {
    fn zero() -> Real {
        Real(0.0)
    }

    fn one() -> Real {
        Real(1.0)
    }

    fn plus(self, rhs: Real) -> Real {
        Real(self.0 + rhs.0)
    }

    fn minus(self, rhs: Real) -> Real {
        Real(self.0 - rhs.0)
    }

    fn times(self, rhs: Real) -> Real {
        Real(self.0 * rhs.0)
    }

    fn over(self, rhs: Real) -> Real {
        Real(self.0 / rhs.0)
    }

    fn negated(self) -> Real {
        Real(-self.0)
    }

    fn exp(self) -> Real {
        Real(self.0.exp())
    }

    fn is_infinite(self) -> bool {
        self.0.is_infinite()
    }
}

type Activation = fn(Real) -> Real;

type Net = Network<Real, Activation, Activation>;

/// A network whose weights and biases are the given values, handed out in
/// the order in which the parameters are initialized.
fn network_of(structure: &[usize], weights: &[f64], biases: &[f64]) -> Net {
    let next_weight = Cell::new(0);
    let next_bias = Cell::new(0);
    let weights_init = |_fan_in: usize, _fan_out: usize| {
        let at = next_weight.get();
        next_weight.set(at + 1);
        Real(weights[at])
    };
    let biases_init = |_fan_out: usize| {
        let at = next_bias.get();
        next_bias.set(at + 1);
        Real(biases[at])
    };
    let net = Network::new(
        structure.to_vec(),
        weights_init,
        biases_init,
        sigmoid as Activation,
        sigmoid_derivative as Activation,
    ).unwrap();
    assert_eq!(next_weight.get(), weights.len());
    assert_eq!(next_bias.get(), biases.len());
    net
}

fn vector(values: &[f64]) -> Vector<Real> {
    Vector::new(values.iter().map(|v| Real(*v)).collect())
}

fn data(rows: &[&[f64]]) -> DataSet<Real> {
    DataSet::from_rows(rows.iter().map(|row| row.iter().map(|v| Real(*v)).collect()).collect())
        .unwrap()
}

fn floats(values: &Vec<Real>) -> Vec<f64> {
    values.iter().map(|v| v.0).collect()
}

fn weights_of(net: &Net, transition: usize) -> Vec<f64> {
    let m = &net.weights()[transition];
    let mut out = Vec::new();
    for i in 0..m.rows() {
        for j in 0..m.cols() {
            out.push(m.index(i, j).0);
        }
    }
    out
}

fn biases_of(net: &Net, transition: usize) -> Vec<f64> {
    floats(net.biases()[transition].as_vec())
}

fn logistic(x: f64) -> f64 {
    1.0 / (1.0 + (-x).exp())
}

fn logistic_slope(x: f64) -> f64 {
    logistic(x) * (1.0 - logistic(x))
}

fn cost_of(net: &Net, input: &[f64], expected: &[f64]) -> f64 {
    let output = net.test(&data(&[input])).unwrap();
    net.cost(&output, &data(&[expected])).unwrap()[0].0
}

fn close(a: f64, b: f64) -> bool {
    (a - b).abs() <= 1.0e-12 * (1.0 + a.abs().max(b.abs()))
}

#[test]
fn new_gives_every_parameter_its_initial_value() {
    let net = network_of(
        &[2, 3, 1],
        &[1.0, 2.0, 3.0, 4.0, 5.0, 6.0, 7.0, 8.0, 9.0],
        &[0.1, 0.2, 0.3, 0.4],
    );
    assert_eq!(net.num_layers(), 3);
    assert_eq!(net.structure(), &vec![2, 3, 1]);
    assert_eq!(net.weights().len(), 2);
    assert_eq!(net.biases().len(), 2);
    assert_eq!((net.weights()[0].rows(), net.weights()[0].cols()), (3, 2));
    assert_eq!((net.weights()[1].rows(), net.weights()[1].cols()), (1, 3));
    assert_eq!(weights_of(&net, 0), vec![1.0, 2.0, 3.0, 4.0, 5.0, 6.0]);
    assert_eq!(weights_of(&net, 1), vec![7.0, 8.0, 9.0]);
    assert_eq!(biases_of(&net, 0), vec![0.1, 0.2, 0.3]);
    assert_eq!(biases_of(&net, 1), vec![0.4]);
}

#[test]
fn new_hands_the_layer_sizes_to_the_initializers() {
    let net: Net = Network::new(
        vec![4, 3, 2],
        |fan_in: usize, fan_out: usize| Real((10 * fan_in + fan_out) as f64),
        |fan_out: usize| Real(fan_out as f64),
        swish as Activation,
        swish_derivative as Activation,
    ).unwrap();
    assert_eq!(weights_of(&net, 0), vec![43.0; 12]);
    assert_eq!(weights_of(&net, 1), vec![32.0; 6]);
    assert_eq!(biases_of(&net, 0), vec![3.0; 3]);
    assert_eq!(biases_of(&net, 1), vec![2.0; 2]);
}

#[test]
fn new_refuses_fewer_than_two_layers() {
    for structure in [vec![], vec![3]] {
        let made: Result<Net, NetworkError> = Network::new(
            structure,
            |_: usize, _: usize| Real(0.0),
            |_: usize| Real(0.0),
            sigmoid as Activation,
            sigmoid_derivative as Activation,
        );
        assert_eq!(made.err(), Some(NetworkError::TooFewLayers));
    }
}

#[test]
fn new_refuses_more_weights_than_can_be_counted() {
    let made: Result<Net, NetworkError> = Network::new(
        vec![2, usize::MAX, 2],
        |_: usize, _: usize| Real(0.0),
        |_: usize| Real(0.0),
        sigmoid as Activation,
        sigmoid_derivative as Activation,
    );
    assert_eq!(made.err(), Some(NetworkError::TooLarge));
}

#[test]
fn feed_forward_records_every_transition() {
    let net = network_of(&[2, 2, 1], &[0.1, 0.2, 0.3, 0.4, 0.5, -0.6], &[0.01, 0.02, 0.03]);
    let (given, layers) = net.feed_forward(&vector(&[1.0, -2.0])).unwrap();
    assert_eq!(floats(given.as_vec()), vec![1.0, -2.0]);
    assert_eq!(layers.len(), 2);

    let w1 = [0.0 + 0.1 * 1.0 + 0.2 * -2.0, 0.0 + 0.3 * 1.0 + 0.4 * -2.0];
    let z1 = [w1[0] + 0.01, w1[1] + 0.02];
    let a1 = [logistic(z1[0]), logistic(z1[1])];
    let w2 = 0.0 + 0.5 * a1[0] + -0.6 * a1[1];
    let z2 = w2 + 0.03;
    assert_eq!(floats(layers[0].after_weights.as_vec()), w1.to_vec());
    assert_eq!(floats(layers[0].after_biases.as_vec()), z1.to_vec());
    assert_eq!(floats(layers[0].after_activ.as_vec()), a1.to_vec());
    assert_eq!(floats(layers[1].after_weights.as_vec()), vec![w2]);
    assert_eq!(floats(layers[1].after_biases.as_vec()), vec![z2]);
    assert_eq!(floats(layers[1].after_activ.as_vec()), vec![logistic(z2)]);
}

#[test]
fn feed_forward_refuses_an_input_of_the_wrong_width() {
    let net = network_of(&[2, 1], &[0.5, -0.3], &[0.1]);
    assert_eq!(
        net.feed_forward(&vector(&[1.0, 2.0, 3.0])).err(),
        Some(NetworkError::InputWidthMismatch)
    );
    assert_eq!(net.feed_forward(&vector(&[])).err(), Some(NetworkError::InputWidthMismatch));
}

#[test]
fn test_gives_the_output_for_every_sample() {
    let net = network_of(&[2, 1], &[0.5, -0.3], &[0.1]);
    let outputs = net.test(&data(&[&[1.0, 2.0], &[0.0, 0.0], &[-1.0, 3.0]])).unwrap();
    assert_eq!(outputs.quantity(), 3);
    assert_eq!(outputs.entries_per_set(), 1);
    assert_eq!(floats(outputs.get(0)), vec![logistic(0.0 + 0.5 * 1.0 + -0.3 * 2.0 + 0.1)]);
    assert_eq!(floats(outputs.get(1)), vec![logistic(0.1)]);
    assert_eq!(floats(outputs.get(2)), vec![logistic(0.0 + 0.5 * -1.0 + -0.3 * 3.0 + 0.1)]);
    assert_eq!(weights_of(&net, 0), vec![0.5, -0.3]);
    assert_eq!(biases_of(&net, 0), vec![0.1]);
}

#[test]
fn test_of_the_empty_set_is_empty() {
    let net = network_of(&[2, 1], &[0.5, -0.3], &[0.1]);
    let outputs = net.test(&data(&[])).unwrap();
    assert_eq!(outputs.quantity(), 0);
}

#[test]
fn test_refuses_samples_of_the_wrong_width() {
    let net = network_of(&[2, 1], &[0.5, -0.3], &[0.1]);
    assert_eq!(
        net.test(&data(&[&[1.0, 2.0, 3.0]])).err(),
        Some(NetworkError::InputWidthMismatch)
    );
}

#[test]
fn cost_is_the_sum_of_squared_differences_of_each_sample() {
    let net = network_of(&[2, 2], &[0.0; 4], &[0.0; 2]);
    let output = data(&[&[1.0, 2.0], &[0.5, -0.5], &[3.0, 3.0]]);
    let expected = data(&[&[0.0, 4.0], &[0.5, 0.5], &[3.0, 3.0]]);
    let costs = net.cost(&output, &expected).unwrap();
    assert_eq!(floats(&costs), vec![5.0, 1.0, 0.0]);
}

#[test]
fn cost_of_identical_sets_is_zero_for_every_sample() {
    let net = network_of(&[3, 2], &[0.0; 6], &[0.0; 2]);
    let output = data(&[&[1.0, 2.0], &[0.25, -0.5], &[1.0e10, -3.0], &[0.0, 0.0]]);
    let costs = net.cost(&output, &output.clone()).unwrap();
    assert_eq!(costs.len(), 4);
    for cost in costs {
        assert_eq!(cost, Real(0.0));
    }
}

#[test]
fn cost_of_empty_sets_is_empty() {
    let net = network_of(&[3, 2], &[0.0; 6], &[0.0; 2]);
    assert_eq!(net.cost(&data(&[]), &data(&[])).unwrap().len(), 0);
}

#[test]
fn cost_refuses_sets_that_do_not_fit() {
    let net = network_of(&[3, 2], &[0.0; 6], &[0.0; 2]);
    let two = data(&[&[1.0, 2.0], &[3.0, 4.0]]);
    let one = data(&[&[1.0, 2.0]]);
    let wide = data(&[&[1.0, 2.0, 3.0], &[4.0, 5.0, 6.0]]);
    assert_eq!(net.cost(&two, &one).err(), Some(NetworkError::QuantityMismatch));
    assert_eq!(net.cost(&wide, &two).err(), Some(NetworkError::OutputWidthMismatch));
    assert_eq!(net.cost(&two, &wide).err(), Some(NetworkError::OutputWidthMismatch));
}

#[test]
fn one_step_moves_each_weight_by_rate_times_signal_times_input() {
    let (weights, bias) = ([0.5, -0.3], 0.1);
    let (input, expected) = ([1.0, 2.0], 0.0);
    let (weights_lr, biases_lr) = (0.1, 0.05);

    let mut net = network_of(&[2, 1], &weights, &[bias]);
    net.train_singular(Real(weights_lr), Real(biases_lr), &vector(&input), &vector(&[expected]))
        .unwrap();

    let z = 0.0 + weights[0] * input[0] + weights[1] * input[1] + bias;
    let output = logistic(z);
    let delta = 2.0 * (output - expected) * logistic_slope(z);
    let after = weights_of(&net, 0);
    for j in 0..2 {
        assert!(close(after[j], weights[j] - weights_lr * (delta * input[j])));
        assert!(close(after[j] - weights[j], -weights_lr * delta * input[j]));
    }
    assert!(close(biases_of(&net, 0)[0], bias - biases_lr * delta));
    assert!((after[0] - 0.475).abs() < 1.0e-9);
    assert!((after[1] - -0.35).abs() < 1.0e-9);
    assert!((biases_of(&net, 0)[0] - 0.0875).abs() < 1.0e-9);

    // The same gradient, estimated by perturbing one weight at a time.
    let h = 1.0e-6;
    for j in 0..2 {
        let mut up = weights;
        let mut down = weights;
        up[j] += h;
        down[j] -= h;
        let estimate = (cost_of(&network_of(&[2, 1], &up, &[bias]), &input, &[expected])
            - cost_of(&network_of(&[2, 1], &down, &[bias]), &input, &[expected])) / (2.0 * h);
        assert!((estimate - delta * input[j]).abs() < 1.0e-7);
        assert!(((weights[j] - after[j]) / weights_lr - estimate).abs() < 1.0e-7);
    }
    let estimate = (cost_of(&network_of(&[2, 1], &weights, &[bias + h]), &input, &[expected])
        - cost_of(&network_of(&[2, 1], &weights, &[bias - h]), &input, &[expected])) / (2.0 * h);
    assert!((estimate - delta).abs() < 1.0e-7);
}

#[test]
fn gradients_of_a_deeper_network_match_difference_quotients() {
    let structure = [3, 4, 3, 2];
    let weights: Vec<f64> = (0..30).map(|k| ((k * 7 % 11) as f64 - 5.0) / 10.0).collect();
    let biases: Vec<f64> = (0..9).map(|k| ((k * 5 % 7) as f64 - 3.0) / 20.0).collect();
    let input = [0.3, -0.8, 0.5];
    let expected = [0.2, 0.9];
    let rate = 0.5;

    let mut net = network_of(&structure, &weights, &biases);
    net.train_singular(Real(rate), Real(rate), &vector(&input), &vector(&expected)).unwrap();
    let mut after = Vec::new();
    for t in 0..3 {
        after.extend(weights_of(&net, t));
    }
    let mut after_biases = Vec::new();
    for t in 0..3 {
        after_biases.extend(biases_of(&net, t));
    }

    let h = 1.0e-6;
    for k in 0..weights.len() {
        let mut up = weights.clone();
        let mut down = weights.clone();
        up[k] += h;
        down[k] -= h;
        let estimate = (cost_of(&network_of(&structure, &up, &biases), &input, &expected)
            - cost_of(&network_of(&structure, &down, &biases), &input, &expected)) / (2.0 * h);
        assert!(((weights[k] - after[k]) / rate - estimate).abs() < 1.0e-6, "weight {}", k);
    }
    for k in 0..biases.len() {
        let mut up = biases.clone();
        let mut down = biases.clone();
        up[k] += h;
        down[k] -= h;
        let estimate = (cost_of(&network_of(&structure, &weights, &up), &input, &expected)
            - cost_of(&network_of(&structure, &weights, &down), &input, &expected)) / (2.0 * h);
        assert!(((biases[k] - after_biases[k]) / rate - estimate).abs() < 1.0e-6, "bias {}", k);
    }
}

#[test]
fn train_singular_refuses_what_does_not_fit_and_changes_nothing() {
    let mut net = network_of(&[2, 1], &[0.5, -0.3], &[0.1]);
    assert_eq!(
        net.train_singular(Real(0.1), Real(0.1), &vector(&[1.0]), &vector(&[0.0])).err(),
        Some(NetworkError::InputWidthMismatch)
    );
    assert_eq!(
        net.train_singular(Real(0.1), Real(0.1), &vector(&[1.0, 2.0]), &vector(&[0.0, 1.0])).err(),
        Some(NetworkError::OutputWidthMismatch)
    );
    assert_eq!(weights_of(&net, 0), vec![0.5, -0.3]);
    assert_eq!(biases_of(&net, 0), vec![0.1]);
}

#[test]
fn train_batch_on_an_empty_set_changes_nothing() {
    let mut net = network_of(&[2, 2, 1], &[0.1, 0.2, 0.3, 0.4, 0.5, -0.6], &[0.01, 0.02, 0.03]);
    net.train_batch(Real(0.5), Real(0.5), &data(&[]), &data(&[])).unwrap();
    assert_eq!(weights_of(&net, 0), vec![0.1, 0.2, 0.3, 0.4]);
    assert_eq!(weights_of(&net, 1), vec![0.5, -0.6]);
    assert_eq!(biases_of(&net, 0), vec![0.01, 0.02]);
    assert_eq!(biases_of(&net, 1), vec![0.03]);
}

#[test]
fn train_batch_refuses_sets_that_do_not_fit_and_changes_nothing() {
    let mut net = network_of(&[2, 1], &[0.5, -0.3], &[0.1]);
    let inputs = data(&[&[1.0, 2.0], &[3.0, 4.0]]);
    let outputs = data(&[&[0.0], &[1.0]]);
    assert_eq!(
        net.train_batch(Real(0.1), Real(0.1), &inputs, &data(&[&[0.0]])).err(),
        Some(NetworkError::QuantityMismatch)
    );
    assert_eq!(
        net.train_batch(Real(0.1), Real(0.1), &outputs, &outputs).err(),
        Some(NetworkError::InputWidthMismatch)
    );
    assert_eq!(
        net.train_batch(Real(0.1), Real(0.1), &inputs, &inputs).err(),
        Some(NetworkError::OutputWidthMismatch)
    );
    assert_eq!(weights_of(&net, 0), vec![0.5, -0.3]);
    assert_eq!(biases_of(&net, 0), vec![0.1]);
}

#[test]
fn train_batch_takes_one_step_per_sample_in_order() {
    let inputs: [&[f64]; 3] = [&[1.0, 2.0], &[-0.5, 0.25], &[0.0, 1.5]];
    let targets: [&[f64]; 3] = [&[0.0], &[1.0], &[0.5]];

    let mut batch = network_of(&[2, 2, 1], &[0.1, 0.2, 0.3, 0.4, 0.5, -0.6], &[0.01, 0.02, 0.03]);
    batch.train_batch(Real(0.3), Real(0.2), &data(&inputs), &data(&targets)).unwrap();

    let mut single = network_of(&[2, 2, 1], &[0.1, 0.2, 0.3, 0.4, 0.5, -0.6], &[0.01, 0.02, 0.03]);
    for k in 0..3 {
        single
            .train_singular(Real(0.3), Real(0.2), &vector(inputs[k]), &vector(targets[k]))
            .unwrap();
    }
    for t in 0..2 {
        assert_eq!(weights_of(&batch, t), weights_of(&single, t));
        assert_eq!(biases_of(&batch, t), biases_of(&single, t));
    }

    let mut reversed = network_of(&[2, 2, 1], &[0.1, 0.2, 0.3, 0.4, 0.5, -0.6], &[0.01, 0.02, 0.03]);
    for k in (0..3).rev() {
        reversed
            .train_singular(Real(0.3), Real(0.2), &vector(inputs[k]), &vector(targets[k]))
            .unwrap();
    }
    assert_ne!(weights_of(&batch, 0), weights_of(&reversed, 0));
}

/// One step of gradient descent on a network of two inputs, two hidden
/// neurons and one output, written out by hand.
fn step_by_hand(w1: &mut [f64; 4], b1: &mut [f64; 2], w2: &mut [f64; 2], b2: &mut f64, x: [f64; 2], e: f64, rate: f64) {
    let z1 = [w1[0] * x[0] + w1[1] * x[1] + b1[0], w1[2] * x[0] + w1[3] * x[1] + b1[1]];
    let a1 = [logistic(z1[0]), logistic(z1[1])];
    let z2 = w2[0] * a1[0] + w2[1] * a1[1] + *b2;
    let a2 = logistic(z2);
    let d2 = 2.0 * (a2 - e) * logistic_slope(z2);
    let d1 = [d2 * w2[0] * logistic_slope(z1[0]), d2 * w2[1] * logistic_slope(z1[1])];
    for i in 0..2 {
        for j in 0..2 {
            w1[2 * i + j] -= rate * d1[i] * x[j];
        }
        b1[i] -= rate * d1[i];
        w2[i] -= rate * d2 * a1[i];
    }
    *b2 -= rate * d2;
}

#[test]
fn training_on_one_pair_brings_the_cost_down_step_by_step() {
    let mut w1 = [0.15, -0.2, 0.25, 0.3];
    let mut b1 = [0.35, -0.35];
    let mut w2 = [0.4, -0.45];
    let mut b2 = 0.6;
    let x = [0.05, 0.1];
    let e = 0.01;
    let rate = 0.5;

    let mut net = network_of(&[2, 2, 1], &[0.15, -0.2, 0.25, 0.3, 0.4, -0.45], &[0.35, -0.35, 0.6]);
    let inputs = data(&[&x]);
    let targets = data(&[&[e]]);
    let mut last = cost_of(&net, &x, &[e]);
    assert!(close(last, (logistic(0.4 * logistic(0.15 * 0.05 - 0.2 * 0.1 + 0.35)
        - 0.45 * logistic(0.25 * 0.05 + 0.3 * 0.1 - 0.35) + 0.6) - e).powi(2)));
    let first = last;
    for _epoch in 0..200 {
        net.train_batch(Real(rate), Real(rate), &inputs, &targets).unwrap();
        step_by_hand(&mut w1, &mut b1, &mut w2, &mut b2, x, e, rate);
        let now = cost_of(&net, &x, &[e]);
        assert!(now < last, "the cost went from {} to {}", last, now);
        last = now;

        let by_hand = weights_of(&net, 0);
        for k in 0..4 {
            assert!(close(by_hand[k], w1[k]));
        }
        let by_hand = weights_of(&net, 1);
        for k in 0..2 {
            assert!(close(by_hand[k], w2[k]));
        }
        assert!(close(biases_of(&net, 0)[0], b1[0]));
        assert!(close(biases_of(&net, 0)[1], b1[1]));
        assert!(close(biases_of(&net, 1)[0], b2));
    }
    assert!(last < first / 10.0);
}

#[test]
fn network_errors_describe_themselves() {
    for error in [
        NetworkError::TooFewLayers,
        NetworkError::TooLarge,
        NetworkError::QuantityMismatch,
        NetworkError::InputWidthMismatch,
        NetworkError::OutputWidthMismatch,
        NetworkError::LayerTooWide,
    ] {
        assert!(error.message().starts_with("Attempt to "));
        assert!(error.message().ends_with('.'));
    }
    assert_eq!(
        NetworkError::TooFewLayers.message(),
        "Attempt to create a neural network with fewer than two layers."
    );
}

#[test]
fn sizes_that_cannot_be_counted_are_found() {
    let half = 1usize << (usize::BITS / 2);
    assert!(weights_countable(&vec![784, 20, 20, 10]));
    assert!(weights_countable(&vec![]));
    assert!(weights_countable(&vec![usize::MAX]));
    assert!(weights_countable(&vec![half - 1, half, 0, usize::MAX]));
    assert!(!weights_countable(&vec![half, half]));
    assert!(!weights_countable(&vec![2, 3, usize::MAX, 2]));
    assert!(slopes_countable(&vec![784, 20, 20, 10]));
    assert!(slopes_countable(&vec![usize::MAX, half - 1]));
    assert!(slopes_countable(&vec![usize::MAX]));
    assert!(!slopes_countable(&vec![1, half]));
    assert!(!slopes_countable(&vec![1, 2, half, 2]));
}

#[test]
fn clone_keeps_the_parameters_apart() {
    let net = network_of(&[2, 1], &[0.5, -0.3], &[0.1]);
    let mut copy = net.clone();
    assert_eq!(copy.structure(), &vec![2, 1]);
    copy.train_singular(Real(0.1), Real(0.1), &vector(&[1.0, 2.0]), &vector(&[0.0])).unwrap();
    assert_eq!(weights_of(&net, 0), vec![0.5, -0.3]);
    assert_ne!(weights_of(&copy, 0), vec![0.5, -0.3]);
}

/// A number that takes no room, so that a layer of any width can be made.
#[derive(Clone, Copy, Debug, PartialEq)]
struct Unit;

impl Scalar for Unit {
    fn zero() -> Unit {
        Unit
    }

    fn one() -> Unit {
        Unit
    }

    fn plus(self, _rhs: Unit) -> Unit {
        Unit
    }

    fn minus(self, _rhs: Unit) -> Unit {
        Unit
    }

    fn times(self, _rhs: Unit) -> Unit {
        Unit
    }

    fn over(self, _rhs: Unit) -> Unit {
        Unit
    }

    fn negated(self) -> Unit {
        Unit
    }

    fn exp(self) -> Unit {
        Unit
    }

    fn is_infinite(self) -> bool {
        false
    }
}

#[test]
fn training_refuses_a_layer_too_wide_for_its_slopes() {
    let wide = 1usize << (usize::BITS / 2);
    let mut net = Network::new(
        vec![0, wide],
        |_: usize, _: usize| Unit,
        |_: usize| Unit,
        |x: Unit| x,
        |x: Unit| x,
    ).unwrap();
    let input = Vector::new(Vec::<Unit>::new());
    let expected = Vector::new(vec![Unit; wide]);
    assert_eq!(
        net.train_singular(Unit, Unit, &input, &expected).err(),
        Some(NetworkError::LayerTooWide)
    );
}
