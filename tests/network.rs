use rand::rngs::StdRng;
use rand::SeedableRng;
use saliency_net::{
    affine, argmax, check_topology, hadamard, one_hot, outer_step, scaled_step, transpose_times,
    NetError, Network, ParamSource, Scalar, SerializableMatrix, SerializableNetwork,
    SerializableVector,
};

#[derive(Clone, Copy, Debug, PartialEq)]
struct F(f64);

impl Scalar for F {
    fn zero() -> Self {
        F(0.0)
    }
    fn one() -> Self {
        F(1.0)
    }
    fn plus(self, other: Self) -> Self {
        F(self.0 + other.0)
    }
    fn minus(self, other: Self) -> Self {
        F(self.0 - other.0)
    }
    fn times(self, other: Self) -> Self {
        F(self.0 * other.0)
    }
    fn sigmoid(self) -> Self {
        F(sig(self.0))
    }
    fn greater_than(self, other: Self) -> bool {
        self.0 > other.0
    }

    // The meaning of each operation is the operation itself.
    fn zero_spec() -> Self {
        Self::zero()
    }
    fn one_spec() -> Self {
        Self::one()
    }
    fn plus_spec(self, other: Self) -> Self {
        self.plus(other)
    }
    fn minus_spec(self, other: Self) -> Self {
        self.minus(other)
    }
    fn times_spec(self, other: Self) -> Self {
        self.times(other)
    }
    fn sigmoid_spec(self) -> Self {
        self.sigmoid()
    }
    fn gt_spec(self, other: Self) -> bool {
        self.greater_than(other)
    }
}

fn sig(x: f64) -> f64 {
    1.0 / (1.0 + (-x).exp())
}

fn sig_prime(x: f64) -> f64 {
    sig(x) * (1.0 - sig(x))
}

/// Hands out 1, 2, 3, ... in turn.
struct Counter(f64);

impl ParamSource<F> for Counter {
    fn draw(&mut self) -> F {
        self.0 += 1.0;
        F(self.0)
    }
}

/// A small linear congruential generator giving values in [-1, 1).
struct Lcg(u64);

impl ParamSource<F> for Lcg {
    fn draw(&mut self) -> F {
        self.0 = self.0.wrapping_mul(6364136223846793005).wrapping_add(1442695040888963407);
        F((self.0 >> 11) as f64 / (1u64 << 53) as f64 * 2.0 - 1.0)
    }
}

fn seeded() -> StdRng {
    StdRng::seed_from_u64(42)
}

fn fv(xs: &[f64]) -> Vec<F> {
    xs.iter().map(|&x| F(x)).collect()
}

fn raw(xs: &[F]) -> Vec<f64> {
    xs.iter().map(|x| x.0).collect()
}

fn close(a: f64, b: f64, tol: f64) -> bool {
    (a - b).abs() < tol
}

/// The network of topology [2, 2, 1] with W1 = [[0.1, 0.2], [0.3, 0.4]],
/// b1 = [0, 0], W2 = [[0.5, 0.6]], b2 = [0].
fn small_net() -> Network<F> {
    let s = SerializableNetwork {
        weights: vec![
            SerializableMatrix { nrows: 2, ncols: 2, data: fv(&[0.1, 0.2, 0.3, 0.4]) },
            SerializableMatrix { nrows: 1, ncols: 2, data: fv(&[0.5, 0.6]) },
        ],
        biases: vec![
            SerializableVector { data: fv(&[0.0, 0.0]) },
            SerializableVector { data: fv(&[0.0]) },
        ],
    };
    Network::from_serializable(&s).unwrap()
}

fn params(net: &Network<F>) -> Vec<Vec<f64>> {
    let mut out = Vec::new();
    for i in 0..net.layer_count() {
        out.push(raw(net.layer_weights(i)));
        out.push(raw(net.layer_biases(i)));
    }
    out
}

#[test]
fn new_rejects_fewer_than_two_sizes() {
    let r = Network::<F>::new(&vec![3], &mut Counter(0.0));
    assert_eq!(r.err(), Some(NetError::InvalidTopology));
    let r = Network::<F>::new(&vec![], &mut Counter(0.0));
    assert_eq!(r.err(), Some(NetError::InvalidTopology));
}

#[test]
fn new_rejects_zero_size() {
    let r = Network::<F>::new(&vec![2, 0, 1], &mut Counter(0.0));
    assert_eq!(r.err(), Some(NetError::InvalidTopology));
    assert!(!check_topology(&vec![2, 0, 1]));
    assert!(check_topology(&vec![2, 3, 1]));
}

#[test]
fn new_draws_weights_then_biases() {
    let net = Network::<F>::new(&vec![2, 3, 1], &mut Counter(0.0)).unwrap();
    assert_eq!(net.sizes(), &vec![2, 3, 1]);
    assert_eq!(net.layer_count(), 2);
    assert_eq!(raw(net.layer_weights(0)), vec![1.0, 2.0, 3.0, 4.0, 5.0, 6.0]);
    assert_eq!(raw(net.layer_weights(1)), vec![7.0, 8.0, 9.0]);
    assert_eq!(raw(net.layer_biases(0)), vec![10.0, 11.0, 12.0]);
    assert_eq!(raw(net.layer_biases(1)), vec![13.0]);
}

#[test]
fn feedforward_fixed_network() {
    let net = small_net();
    let (zs, acts) = net.feedforward_cached(&fv(&[1.0, 0.0]));
    assert!(close(zs[0][0].0, 0.1, 1e-12));
    assert!(close(zs[0][1].0, 0.3, 1e-12));
    assert!(close(acts[1][0].0, 0.52498, 1e-4));
    assert!(close(acts[1][1].0, 0.57444, 1e-4));
    assert!(close(zs[1][0].0, 0.60715, 1e-4));
    let out = net.feedforward(&fv(&[1.0, 0.0])).unwrap();
    assert_eq!(out.len(), 1);
    assert!(close(out[0].0, 0.6473, 1e-3));
}

#[test]
fn feedforward_output_in_sigmoid_range() {
    let net = Network::<F>::new(&vec![3, 4, 2], &mut Lcg(7)).unwrap();
    let out = net.feedforward(&fv(&[0.2, 0.5, 1.0])).unwrap();
    assert_eq!(out.len(), 2);
    for x in out {
        assert!(x.0 > 0.0 && x.0 < 1.0);
    }
}

#[test]
fn feedforward_rejects_wrong_length() {
    let net = small_net();
    assert_eq!(net.feedforward(&fv(&[1.0])).err(), Some(NetError::DimensionMismatch));
    assert_eq!(net.predict(&fv(&[1.0, 0.0, 0.0])).err(), Some(NetError::DimensionMismatch));
    assert_eq!(net.saliency_map(&fv(&[])).err(), Some(NetError::DimensionMismatch));
}

#[test]
fn predict_picks_largest_output() {
    let s = SerializableNetwork {
        weights: vec![SerializableMatrix { nrows: 3, ncols: 1, data: fv(&[-1.0, 2.0, 1.0]) }],
        biases: vec![SerializableVector { data: fv(&[0.0, 0.0, 0.0]) }],
    };
    let net = Network::from_serializable(&s).unwrap();
    assert_eq!(net.predict(&fv(&[1.0])).unwrap(), 1);
}

#[test]
fn predict_tie_takes_lowest_index() {
    let s = SerializableNetwork {
        weights: vec![SerializableMatrix { nrows: 3, ncols: 1, data: fv(&[0.0, 0.0, 0.0]) }],
        biases: vec![SerializableVector { data: fv(&[0.0, 0.0, 0.0]) }],
    };
    let net = Network::from_serializable(&s).unwrap();
    assert_eq!(net.predict(&fv(&[1.0])).unwrap(), 0);
}

#[test]
fn predict_index_in_range() {
    let net = Network::<F>::new(&vec![2, 5, 4], &mut Lcg(11)).unwrap();
    let k = net.predict(&fv(&[0.3, 0.9])).unwrap();
    assert!(k < 4);
}

#[test]
fn one_step_moves_output_toward_target() {
    let mut net = small_net();
    let x = fv(&[1.0, 0.0]);
    let before = net.feedforward(&x).unwrap()[0].0;
    net.sgd_step(&x, &fv(&[1.0]), F(0.1));
    let after = net.feedforward(&x).unwrap()[0].0;
    assert!((1.0 - after).abs() < (1.0 - before).abs());
}

#[test]
fn one_step_exact_update() {
    let mut net = small_net();
    let x = fv(&[1.0, 0.0]);
    net.sgd_step(&x, &fv(&[1.0]), F(0.1));
    let z1 = [0.1, 0.3];
    let a1 = [sig(0.1), sig(0.3)];
    let z2 = 0.5 * a1[0] + 0.6 * a1[1];
    let d2 = (sig(z2) - 1.0) * sig_prime(z2);
    let d1 = [0.5 * d2 * sig_prime(z1[0]), 0.6 * d2 * sig_prime(z1[1])];
    let w2 = raw(net.layer_weights(1));
    assert!(close(w2[0], 0.5 - 0.1 * d2 * a1[0], 1e-12));
    assert!(close(w2[1], 0.6 - 0.1 * d2 * a1[1], 1e-12));
    assert!(close(raw(net.layer_biases(1))[0], -0.1 * d2, 1e-12));
    let w1 = raw(net.layer_weights(0));
    assert!(close(w1[0], 0.1 - 0.1 * d1[0], 1e-12));
    assert!(close(w1[1], 0.2, 1e-12));
    assert!(close(w1[2], 0.3 - 0.1 * d1[1], 1e-12));
    assert!(close(w1[3], 0.4, 1e-12));
    let b1 = raw(net.layer_biases(0));
    assert!(close(b1[0], -0.1 * d1[0], 1e-12));
    assert!(close(b1[1], -0.1 * d1[1], 1e-12));
}

#[test]
fn train_on_empty_dataset_changes_nothing() {
    let mut net = small_net();
    let before = params(&net);
    let mut data: Vec<(Vec<F>, Vec<F>)> = Vec::new();
    assert_eq!(net.train(&mut data, 50, F(0.5), &mut seeded()), Ok(()));
    assert_eq!(params(&net), before);
}

#[test]
fn train_with_no_epochs_changes_nothing() {
    let mut net = small_net();
    let before = params(&net);
    let mut data = vec![(fv(&[1.0, 0.0]), fv(&[1.0]))];
    assert_eq!(net.train(&mut data, 0, F(0.5), &mut seeded()), Ok(()));
    assert_eq!(params(&net), before);
}

#[test]
fn train_rejects_malformed_sample() {
    let mut net = small_net();
    let before = params(&net);
    let mut data = vec![(fv(&[1.0, 0.0]), fv(&[1.0])), (fv(&[1.0, 0.0]), fv(&[1.0, 0.0]))];
    assert_eq!(net.train(&mut data, 3, F(0.5), &mut seeded()), Err(NetError::DimensionMismatch));
    assert_eq!(params(&net), before);
    let mut data = vec![(fv(&[1.0]), fv(&[1.0]))];
    assert_eq!(net.train(&mut data, 1, F(0.5), &mut seeded()), Err(NetError::DimensionMismatch));
}

#[test]
fn train_overfits_single_sample() {
    let mut net = small_net();
    let x = fv(&[1.0, 0.0]);
    let mut data = vec![(x.clone(), fv(&[0.0]))];
    assert_eq!(net.train(&mut data, 2000, F(0.5), &mut seeded()), Ok(()));
    let out = net.feedforward(&x).unwrap()[0].0;
    assert!(out < 0.05);
}

#[test]
fn train_shuffles_but_keeps_samples() {
    let mut net = Network::<F>::new(&vec![1, 1], &mut Counter(0.0)).unwrap();
    let in_order: Vec<(Vec<F>, Vec<F>)> =
        (0..20).map(|k| (fv(&[k as f64]), fv(&[0.0]))).collect();
    let mut data = in_order.clone();
    assert_eq!(net.train(&mut data, 1, F(0.0), &mut seeded()), Ok(()));
    assert_ne!(data, in_order);
    let mut firsts: Vec<f64> = data.iter().map(|s| s.0[0].0).collect();
    firsts.sort_by(|a, b| a.partial_cmp(b).unwrap());
    let expected: Vec<f64> = (0..20).map(|k| k as f64).collect();
    assert_eq!(firsts, expected);
}

#[test]
fn saliency_fixed_network() {
    let net = small_net();
    let s = net.saliency_map(&fv(&[1.0, 0.0])).unwrap();
    assert_eq!(s.len(), 2);
    let z1 = [0.1, 0.3];
    let a1 = [sig(0.1), sig(0.3)];
    let z2 = 0.5 * a1[0] + 0.6 * a1[1];
    let d2 = (sig(z2) - 1.0) * sig_prime(z2);
    let d1 = [0.5 * d2 * sig_prime(z1[0]), 0.6 * d2 * sig_prime(z1[1])];
    assert!(close(s[0].0, 0.1 * d1[0] + 0.3 * d1[1], 1e-12));
    assert!(close(s[1].0, 0.2 * d1[0] + 0.4 * d1[1], 1e-12));
    // the parameters are only read
    assert_eq!(params(&net), params(&small_net()));
}

#[test]
fn saliency_has_input_length() {
    let net = Network::<F>::new(&vec![5, 3, 4, 2], &mut Lcg(3)).unwrap();
    let s = net.saliency_map(&fv(&[0.0, 0.25, 0.5, 0.75, 1.0])).unwrap();
    assert_eq!(s.len(), 5);
}

#[test]
fn records_round_trip() {
    let net = Network::<F>::new(&vec![3, 2, 2], &mut Counter(0.5)).unwrap();
    let s = SerializableNetwork::from_network(&net);
    assert_eq!(s.weights.len(), 2);
    assert_eq!((s.weights[0].nrows, s.weights[0].ncols), (2, 3));
    assert_eq!((s.weights[1].nrows, s.weights[1].ncols), (2, 2));
    let back = Network::from_serializable(&s).unwrap();
    assert_eq!(back.sizes(), net.sizes());
    assert_eq!(params(&back), params(&net));
}

#[test]
fn records_with_bad_shapes_are_refused() {
    let bad_count = SerializableNetwork {
        weights: vec![SerializableMatrix { nrows: 2, ncols: 2, data: fv(&[1.0, 2.0, 3.0]) }],
        biases: vec![SerializableVector { data: fv(&[0.0, 0.0]) }],
    };
    assert_eq!(Network::from_serializable(&bad_count).err(), Some(NetError::SerializationError));
    let bad_chain = SerializableNetwork {
        weights: vec![
            SerializableMatrix { nrows: 2, ncols: 1, data: fv(&[1.0, 2.0]) },
            SerializableMatrix { nrows: 1, ncols: 3, data: fv(&[1.0, 2.0, 3.0]) },
        ],
        biases: vec![
            SerializableVector { data: fv(&[0.0, 0.0]) },
            SerializableVector { data: fv(&[0.0]) },
        ],
    };
    assert_eq!(Network::from_serializable(&bad_chain).err(), Some(NetError::SerializationError));
    let empty: SerializableNetwork<F> = SerializableNetwork { weights: vec![], biases: vec![] };
    assert_eq!(Network::from_serializable(&empty).err(), Some(NetError::SerializationError));
    let bad_bias = SerializableNetwork {
        weights: vec![SerializableMatrix { nrows: 1, ncols: 1, data: fv(&[1.0]) }],
        biases: vec![SerializableVector { data: fv(&[0.0, 0.0]) }],
    };
    assert_eq!(Network::from_serializable(&bad_bias).err(), Some(NetError::SerializationError));
}

#[test]
fn affine_and_transpose_exact() {
    let w = fv(&[1.0, 2.0, 3.0, 4.0, 5.0, 6.0]);
    let z = affine(&w, 2, 3, &fv(&[0.5, -1.0]), &fv(&[1.0, 0.0, 2.0]));
    assert_eq!(raw(&z), vec![7.5, 15.0]);
    let v = transpose_times(&w, 2, 3, &fv(&[1.0, 2.0]));
    assert_eq!(raw(&v), vec![9.0, 12.0, 15.0]);
}

#[test]
fn elementwise_steps_exact() {
    assert_eq!(raw(&hadamard(&fv(&[2.0, 3.0]), &fv(&[4.0, -1.0]))), vec![8.0, -3.0]);
    let nw = outer_step(&fv(&[1.0, 1.0, 1.0, 1.0]), 2, 2, &fv(&[1.0, 2.0]), &fv(&[3.0, 4.0]), F(0.5));
    assert_eq!(raw(&nw), vec![-0.5, -1.0, -2.0, -3.0]);
    assert_eq!(raw(&scaled_step(&fv(&[1.0, 1.0]), &fv(&[2.0, 4.0]), F(0.5))), vec![0.0, -1.0]);
    assert_eq!(raw(&one_hot::<F>(3, 2)), vec![0.0, 0.0, 1.0]);
}

#[test]
fn argmax_first_of_equal_largest() {
    assert_eq!(argmax(&fv(&[0.1, 0.7, 0.7, 0.2])), 1);
    assert_eq!(argmax(&fv(&[0.9])), 0);
    assert_eq!(argmax(&fv(&[0.3, 0.3])), 0);
}

#[test]
fn train_is_reproducible_with_a_seed() {
    let data: Vec<(Vec<F>, Vec<F>)> = (0..6)
        .map(|k| (fv(&[k as f64 / 6.0, 1.0 - k as f64 / 6.0]), fv(&[(k % 2) as f64])))
        .collect();
    let mut first = small_net();
    let mut second = small_net();
    let mut d1 = data.clone();
    let mut d2 = data.clone();
    assert_eq!(first.train(&mut d1, 4, F(0.3), &mut StdRng::seed_from_u64(9)), Ok(()));
    assert_eq!(second.train(&mut d2, 4, F(0.3), &mut StdRng::seed_from_u64(9)), Ok(()));
    assert_eq!(params(&first), params(&second));
    assert_eq!(d1, d2);
}

#[test]
fn sigmoid_prime_from_sigmoid() {
    let d = saliency_net::sigmoid_prime(F(0.3)).0;
    assert!(close(d, sig(0.3) * (1.0 - sig(0.3)), 1e-15));
    assert!(close(saliency_net::sigmoid_prime(F(0.0)).0, 0.25, 1e-15));
}
