//! The engine run on the library's own fixed-point scalar.

use neural_network::error::NetworkError;
use neural_network::fixed::{Fixed, ONE};
use neural_network::functions::{
    create_random_weight_initializer, ActivationFunction, CostFunction, MeanSquaredError, Relu,
};
use neural_network::layers::{Layer, NeuralLayer};
use neural_network::network::Network;
use neural_network::numeric::{NumericActivation, NumericCost};
use neural_network::perceptron::Perceptron;
use neural_network::scalar::Scalar;

const HALF: i64 = ONE / 2;

fn whole(n: i64) -> Fixed {
    Fixed { raw: n * ONE }
}

fn wholes(values: &[i64]) -> Vec<Fixed> {
    values.iter().map(|v| whole(*v)).collect()
}

#[test]
fn fixed_counts() {
    assert_eq!(Fixed::from_count(0), Fixed { raw: 0 });
    assert_eq!(Fixed::from_count(1), Fixed { raw: ONE });
    assert_eq!(Fixed::from_count(3), whole(3));
    assert_eq!(Fixed::from_count(0x7fff_ffff), Fixed { raw: 0x7fff_ffff * ONE });
    assert_eq!(Fixed::from_count(0x8000_0000), Fixed { raw: i64::MAX });
    assert_eq!(Fixed::from_count(usize::MAX), Fixed { raw: i64::MAX });
}

#[test]
fn fixed_sums_and_differences_saturate() {
    assert_eq!(whole(2).plus(whole(3)), whole(5));
    assert_eq!(whole(2).minus(whole(3)), whole(-1));
    assert_eq!(Fixed { raw: i64::MAX }.plus(Fixed { raw: 1 }), Fixed { raw: i64::MAX });
    assert_eq!(Fixed { raw: i64::MIN }.plus(Fixed { raw: -1 }), Fixed { raw: i64::MIN });
    assert_eq!(Fixed { raw: i64::MIN }.minus(Fixed { raw: 1 }), Fixed { raw: i64::MIN });
    assert_eq!(Fixed { raw: 0 }.minus(Fixed { raw: i64::MIN }), Fixed { raw: i64::MAX });
}

#[test]
fn fixed_products_round_toward_zero_and_saturate() {
    assert_eq!(whole(3).times(whole(-4)), whole(-12));
    assert_eq!(Fixed { raw: HALF }.times(Fixed { raw: HALF }), Fixed { raw: ONE / 4 });
    // 2^-32 * 1/2 lies between 0 and 2^-32, on either side of zero.
    assert_eq!(Fixed { raw: 1 }.times(Fixed { raw: HALF }), Fixed { raw: 0 });
    assert_eq!(Fixed { raw: -1 }.times(Fixed { raw: HALF }), Fixed { raw: 0 });
    assert_eq!(Fixed { raw: -3 }.times(Fixed { raw: HALF }), Fixed { raw: -1 });
    assert_eq!(Fixed { raw: i64::MAX }.times(whole(2)), Fixed { raw: i64::MAX });
    assert_eq!(Fixed { raw: i64::MAX }.times(whole(-2)), Fixed { raw: i64::MIN });
    assert_eq!(Fixed { raw: i64::MIN }.times(Fixed { raw: i64::MIN }), Fixed { raw: i64::MAX });
}

#[test]
fn fixed_quotients_round_toward_zero_and_saturate() {
    assert_eq!(whole(1).over(whole(2)), Fixed { raw: HALF });
    assert_eq!(whole(-7).over(whole(2)), Fixed { raw: -7 * HALF });
    assert_eq!(Fixed { raw: 1 }.over(whole(2)), Fixed { raw: 0 });
    assert_eq!(Fixed { raw: -1 }.over(whole(2)), Fixed { raw: 0 });
    assert_eq!(Fixed { raw: 5 }.over(whole(-2)), Fixed { raw: -2 });
    assert_eq!(whole(1).over(Fixed { raw: 1 }), Fixed { raw: i64::MAX });
    assert_eq!(whole(-1).over(Fixed { raw: 1 }), Fixed { raw: i64::MIN });
    assert_eq!(whole(5).over(Fixed { raw: 0 }), Fixed { raw: i64::MAX });
    assert_eq!(whole(-5).over(Fixed { raw: 0 }), Fixed { raw: i64::MIN });
    assert_eq!(whole(0).over(Fixed { raw: 0 }), Fixed { raw: 0 });
}

#[test]
fn fixed_sign() {
    assert!(Fixed { raw: 1 }.is_positive());
    assert!(!Fixed { raw: 0 }.is_positive());
    assert!(!Fixed { raw: -1 }.is_positive());
}

#[test]
fn fixed_mean_squared_error() {
    let output = wholes(&[1, 0]);
    let expected = wholes(&[0, 0]);
    assert_eq!(MeanSquaredError.cost(&output, &expected), Fixed { raw: HALF });
    assert_eq!(MeanSquaredError.derivative(&output, &expected), wholes(&[2, 0]));
    // No output: zero over zero.
    assert_eq!(MeanSquaredError.cost(&[], &expected), Fixed { raw: 0 });
    assert_eq!(MeanSquaredError.derivative(&[], &expected), Vec::<Fixed>::new());
}

#[test]
fn fixed_rectifier() {
    assert_eq!(Relu.activate(whole(3)), whole(3));
    assert_eq!(Relu.activate(whole(-3)), whole(0));
    assert_eq!(Relu.derivative(Fixed { raw: 1 }), whole(1));
    assert_eq!(Relu.derivative(Fixed { raw: 0 }), whole(0));
}

#[test]
fn fixed_two_layer_network_and_one_training_step() {
    let unit = |weights: &[i64]| Perceptron::with_parameters(wholes(weights), whole(0), &Relu);
    let first = NeuralLayer::with_perceptrons(vec![unit(&[1, 1, 1]), unit(&[1, 1, 1])]).unwrap();
    let second = NeuralLayer::with_perceptrons(vec![unit(&[1, 1]), unit(&[1, 1])]).unwrap();
    let mut network = Network::new(vec![first, second]).ok().unwrap();
    let (output, _) = network.feed_forward(wholes(&[1, 0, 0]), false).unwrap();
    assert_eq!(output, wholes(&[2, 2]));

    let quarter = Fixed { raw: HALF / 2 };
    let cost = network.train(wholes(&[1, 0, 0]), wholes(&[1, 2]), &MeanSquaredError, quarter);
    assert_eq!(cost, Ok(Fixed { raw: HALF }));
    let layers = network.layers();
    for unit in layers[0].perceptrons() {
        assert_eq!(unit.weights(), &wholes(&[0, 1, 1]));
        assert_eq!(unit.bias(), whole(-1));
    }
    let last = layers[1].perceptrons();
    assert_eq!(last[0].weights(), &vec![Fixed { raw: HALF }, Fixed { raw: HALF }]);
    assert_eq!(last[0].bias(), Fixed { raw: -HALF });
    assert_eq!(last[1].weights(), &wholes(&[1, 1]));
    assert_eq!(last[1].bias(), whole(0));
}

#[test]
fn fixed_network_refuses_unfitting_layers() {
    let unit = |weights: &[i64]| Perceptron::with_parameters(wholes(weights), whole(0), &Relu);
    let five = NeuralLayer::with_perceptrons((0..5).map(|_| unit(&[1])).collect()).unwrap();
    let three_in = NeuralLayer::with_perceptrons(vec![unit(&[1, 1, 1])]).unwrap();
    assert_eq!(Network::new(vec![five, three_in]).err(), Some(NetworkError::InvalidTopology));
}

#[test]
fn random_weights_lie_in_the_asked_range_and_vary() {
    let initializer = create_random_weight_initializer(-1, 1);
    let draws: Vec<Fixed> = (0..256).map(|_| initializer()).collect();
    assert!(draws.iter().all(|v| -ONE <= v.raw && v.raw < ONE));
    assert!(draws.iter().any(|v| v.raw != -ONE));
    assert!(draws.iter().any(|v| v.raw != draws[0].raw));

    let narrow = create_random_weight_initializer(2, 3);
    assert!((0..256).map(|_| narrow()).all(|v| 2 * ONE <= v.raw && v.raw < 3 * ONE));
}

#[test]
fn randomly_initialized_layers_chain_into_a_network() {
    let first = NeuralLayer::new(&Relu, create_random_weight_initializer(-1, 1), 3, 3);
    let second = NeuralLayer::new(&Relu, create_random_weight_initializer(-1, 1), 3, 2);
    assert_eq!(first.get_input_size(), Ok(3));
    assert_eq!(second.get_output_size(), 2);
    for unit in first.perceptrons().iter().chain(second.perceptrons().iter()) {
        assert_eq!(unit.get_size(), 3);
        assert!(unit.weights().iter().all(|w| -ONE <= w.raw && w.raw < ONE));
        assert!(-ONE <= unit.bias().raw && unit.bias().raw < ONE);
    }
    let mut network = Network::new(vec![first, second]).ok().unwrap();
    let (output, _) = network.feed_forward(wholes(&[1, 0, 0]), false).unwrap();
    assert_eq!(output.len(), 2);
    let rate = Fixed { raw: ONE / 100 };
    assert!(network.train(wholes(&[1, 0, 0]), wholes(&[1, 0]), &MeanSquaredError, rate).is_ok());
}

#[test]
fn fixed_numeric_derivatives() {
    let double = NumericActivation::new(|x: Fixed| x.plus(x), whole(1));
    assert_eq!(double.activate(whole(3)), whole(6));
    assert_eq!(double.derivative(whole(3)), whole(2));

    let first_entry =
        NumericCost::new(|output: &[Fixed], _expected: &[Fixed]| output[0], Fixed { raw: HALF });
    let output = wholes(&[5, 7]);
    assert_eq!(first_entry.cost(&output, &[]), whole(5));
    assert_eq!(first_entry.derivative(&output, &[]), wholes(&[1, 0]));
}
