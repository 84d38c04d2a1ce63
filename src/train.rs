//! Online stochastic gradient descent by backpropagation.
use rand::rngs::StdRng;
use rand::seq::SliceRandom;
use vstd::prelude::*;

use crate::error::NetError;
use crate::linalg::{
    difference, hadamard, map_sigmoid_prime, outer_step, outer_step_spec, scaled_step,
    scaled_step_spec, transpose_times,
};
use crate::network::{activation, layer_error, pre_activation, Network, NetworkView};
use crate::scalar::Scalar;

verus! {

/// A training sample fits a network: its input has the network's input
/// dimension and its target the output dimension.
pub open spec fn sample_fits<T>(sizes: Seq<usize>, s: (Vec<T>, Vec<T>)) -> bool {
    &&& s.0.len() == sizes[0]
    &&& s.1.len() == sizes[sizes.len() - 1]
}

/// rand's standard generator, carried through as an opaque value.
#[verifier::external_type_specification]
#[verifier::external_body]
pub struct ExStdRng(rand::rngs::StdRng);


/// One gradient step on the sample `(x, y)`: every layer's weights move by
/// `-(delta_i ⊗ a_i) · lr` and its biases by `-delta_i · lr`, where all the
/// errors and activations come from the parameters before the step.
pub open spec fn step_spec<T: Scalar>(v: NetworkView<T>, x: Seq<T>, y: Seq<T>, lr: T) -> NetworkView<T> {
    let n = v.sizes.len() - 1;
    NetworkView {
        sizes: v.sizes,
        weights: Seq::new(
            n as nat,
            |i: int|
                outer_step_spec(
                    v.weights[i],
                    v.sizes[i + 1] as int,
                    v.sizes[i] as int,
                    layer_error(v, x, y, i),
                    activation(v, x, i),
                    lr,
                ),
        ),
        biases: Seq::new(n as nat, |i: int| scaled_step_spec(v.biases[i], layer_error(v, x, y, i), lr)),
    }
}

/// The parameters after one gradient step per sample, for the first `k`
/// samples of `order`, in that order.
pub open spec fn epoch_spec<T: Scalar>(v: NetworkView<T>, order: Seq<(Vec<T>, Vec<T>)>, lr: T, k: int) -> NetworkView<T>
    decreases k,
{
    if k <= 0 {
        v
    } else {
        step_spec(epoch_spec(v, order, lr, k - 1), order[k - 1].0@, order[k - 1].1@, lr)
    }
}

/// The parameters after the first `e` epochs, epoch `j` visiting the samples
/// in the order `orders[j]`.
pub open spec fn train_spec<T: Scalar>(v: NetworkView<T>, orders: Seq<Seq<(Vec<T>, Vec<T>)>>, lr: T, e: int) -> NetworkView<T>
    decreases e,
{
    if e <= 0 {
        v
    } else {
        let p = train_spec(v, orders, lr, e - 1);
        epoch_spec(p, orders[e - 1], lr, orders[e - 1].len() as int)
    }
}

/// `end` and `end_data` are what training `start` on `data` gives when
/// epoch `j` visits the samples in the order `orders[j]`: each order holds
/// the samples of `data`, the data is left in the last order, and the
/// parameters are those of one gradient step per sample, epoch by epoch.
pub open spec fn trained_along<T: Scalar>(
    start: NetworkView<T>,
    data: Seq<(Vec<T>, Vec<T>)>,
    lr: T,
    orders: Seq<Seq<(Vec<T>, Vec<T>)>>,
    end: NetworkView<T>,
    end_data: Seq<(Vec<T>, Vec<T>)>,
) -> bool {
    &&& forall|e: int| 0 <= e < orders.len() ==> (#[trigger] orders[e]).to_multiset() == data.to_multiset()
    &&& orders.len() > 0 ==> end_data == orders[orders.len() - 1]
    &&& end == train_spec(start, orders, lr, orders.len() as int)
}

/// Only the first `e` epochs' orders matter.
pub proof fn lemma_train_prefix<T: Scalar>(v: NetworkView<T>, orders: Seq<Seq<(Vec<T>, Vec<T>)>>, more: Seq<Seq<(Vec<T>, Vec<T>)>>, lr: T, e: int)
    requires
        0 <= e <= orders.len(),
    ensures
        train_spec(v, orders + more, lr, e) == train_spec(v, orders, lr, e),
    decreases e,
{
    if e > 0 {
        lemma_train_prefix(v, orders, more, lr, e - 1);
        assert((orders + more)[e - 1] == orders[e - 1]);
    }
}

/// Training for `e1` epochs and then for `e2` more gives what training for
/// `e1 + e2` epochs gives, the epochs visiting the samples in the same orders.
pub proof fn lemma_train_in_two_runs<T: Scalar>(v: NetworkView<T>, first: Seq<Seq<(Vec<T>, Vec<T>)>>, second: Seq<Seq<(Vec<T>, Vec<T>)>>, lr: T)
    ensures
        train_spec(train_spec(v, first, lr, first.len() as int), second, lr, second.len() as int)
            == train_spec(v, first + second, lr, (first.len() + second.len()) as int),
    decreases second.len(),
{
    let all = first + second;
    if second.len() == 0 {
        assert(all =~= first);
    } else {
        let m = second.len() - 1;
        let shorter = second.subrange(0, m as int);
        lemma_train_in_two_runs(v, first, shorter, lr);
        let mid = train_spec(v, first, lr, first.len() as int);
        lemma_train_prefix(mid, shorter, seq![second[m as int]], lr, m as int);
        assert(shorter + seq![second[m as int]] =~= second);
        lemma_train_prefix(v, first + shorter, seq![second[m as int]], lr, (first.len() + m) as int);
        assert((first + shorter) + seq![second[m as int]] =~= all);
        assert(all[first.len() + m] == second[m as int]);
    }
}

/// With a single sample, every order of it is that sample alone.
pub proof fn lemma_single_sample_order<T>(s: (Vec<T>, Vec<T>), order: Seq<(Vec<T>, Vec<T>)>)
    requires
        order.to_multiset() == seq![s].to_multiset(),
    ensures
        order == seq![s],
{
    broadcast use vstd::seq_lib::group_to_multiset_ensures;

    assert(seq![s].to_multiset().len() == 1);
    assert(order.len() == 1);
    assert(order.contains(order[0]));
    assert(seq![s].to_multiset().count(order[0]) > 0);
    assert(seq![s].contains(order[0]));
    assert(order =~= seq![s]);
}

/// On a single sample, training for `e1` epochs and then for `e2` more gives
/// what training for `e1 + e2` epochs gives: every shuffle of one sample
/// leaves it alone, so the orders of the two runs together are those of the
/// longer run.
pub proof fn lemma_single_sample_epochs_add<T: Scalar>(
    v: NetworkView<T>,
    s: (Vec<T>, Vec<T>),
    first: Seq<Seq<(Vec<T>, Vec<T>)>>,
    second: Seq<Seq<(Vec<T>, Vec<T>)>>,
    all: Seq<Seq<(Vec<T>, Vec<T>)>>,
    lr: T,
)
    requires
        forall|j: int| 0 <= j < first.len() ==> (#[trigger] first[j]).to_multiset() == seq![s].to_multiset(),
        forall|j: int| 0 <= j < second.len() ==> (#[trigger] second[j]).to_multiset() == seq![s].to_multiset(),
        forall|j: int| 0 <= j < all.len() ==> (#[trigger] all[j]).to_multiset() == seq![s].to_multiset(),
        all.len() == first.len() + second.len(),
    ensures
        train_spec(train_spec(v, first, lr, first.len() as int), second, lr, second.len() as int)
            == train_spec(v, all, lr, all.len() as int),
{
    assert forall|j: int| 0 <= j < all.len() implies #[trigger] all[j] == (first + second)[j] by {
        lemma_single_sample_order(s, all[j]);
        if j < first.len() {
            lemma_single_sample_order(s, first[j]);
        } else {
            lemma_single_sample_order(s, second[j - first.len()]);
        }
    }
    assert(all =~= first + second);
    lemma_train_in_two_runs(v, first, second, lr);
}

/// Relies on rand's `SliceRandom::shuffle`: it reorders the slice by
/// swapping its elements, so the result holds the same elements as before,
/// in an order that the generator decides.
#[verifier::external_body]
fn shuffle_in_place<E>(items: &mut Vec<E>, rng: &mut StdRng)
    ensures
        final(items)@.len() == old(items)@.len(),
        final(items)@.to_multiset() == old(items)@.to_multiset(),
{
    items.shuffle(rng);
}

/// Reordering a sequence keeps a property that holds of each of its elements.
proof fn lemma_reorder_keeps_fit<T>(sizes: Seq<usize>, before: Seq<(Vec<T>, Vec<T>)>, after: Seq<(Vec<T>, Vec<T>)>)
    requires
        after.to_multiset() == before.to_multiset(),
        forall|k: int| 0 <= k < before.len() ==> #[trigger] sample_fits(sizes, before[k]),
    ensures
        forall|k: int| 0 <= k < after.len() ==> #[trigger] sample_fits(sizes, after[k]),
{
    broadcast use vstd::seq_lib::group_to_multiset_ensures;

    assert forall|k: int| 0 <= k < after.len() implies #[trigger] sample_fits(sizes, after[k]) by {
        assert(after.contains(after[k]));
        assert(before.to_multiset().count(after[k]) > 0);
        assert(before.contains(after[k]));
        let j = choose|j: int| 0 <= j < before.len() && before[j] == after[k];
        assert(sample_fits(sizes, before[j]));
    }
}

impl<T: Scalar> Network<T> {
    /// Whether every sample of `data` fits the network.
    pub fn samples_fit(&self, data: &Vec<(Vec<T>, Vec<T>)>) -> (ok: bool)
        requires
            self.wf(),
        ensures
            ok == forall|k: int| 0 <= k < data@.len() ==> #[trigger] sample_fits(self@.sizes, data@[k]),
    {
        let n = self.sizes.len() - 1;
        let mut k: usize = 0;
        while k < data.len()
            invariant
                self.wf(),
                n == self@.sizes.len() - 1,
                k <= data.len(),
                forall|j: int| 0 <= j < k ==> #[trigger] sample_fits(self@.sizes, data@[j]),
            decreases data.len() - k,
        {
            if data[k].0.len() != self.sizes[0] || data[k].1.len() != self.sizes[n] {
                assert(!sample_fits(self@.sizes, data@[k as int]));
                return false;
            }
            k = k + 1;
        }
        true
    }

    /// One gradient-descent step on the sample `(x, y)`.
    ///
    /// With `z`, `a` from the forward pass, the output error is
    /// `delta_n = (a_n - y) ⊙ sigmoid'(z_n)`. Going down the layers, each
    /// layer's weights move by `-lr · (delta_i ⊗ a_{i-1})` and its biases by
    /// `-lr · delta_i`, and below the first layer the error propagates as
    /// `delta_{i-1} = (W_iᵀ · delta_i) ⊙ sigmoid'(z_{i-1})`, with `W_i` taken
    /// before its own update.
    pub fn sgd_step(&mut self, x: &Vec<T>, y: &Vec<T>, learning_rate: T)
        requires
            old(self).wf(),
            x.len() == old(self).input_len(),
            y.len() == old(self).output_len(),
        ensures
            final(self).wf(),
            final(self)@.sizes == old(self)@.sizes,
            final(self)@ == step_spec(old(self)@, x@, y@, learning_rate),
    {
        let ghost start = self@;
        let ghost goal = step_spec(start, x@, y@, learning_rate);
        let (zs, acts) = self.feedforward_cached(x);
        let n = self.weights.len();
        let mut delta = hadamard(&difference(&acts[n], y), &map_sigmoid_prime(&zs[n - 1]));
        let mut i: usize = n;
        while i > 0
            invariant
                self.wf(),
                start == old(self)@,
                goal == step_spec(start, x@, y@, learning_rate),
                self@.sizes == start.sizes,
                self@.weights.len() == start.weights.len(),
                self@.biases.len() == start.biases.len(),
                n == self.layers(),
                i <= n,
                i > 0 ==> delta.len() == self@.sizes[i as int],
                i > 0 ==> delta@ == layer_error(start, x@, y@, i - 1),
                zs.len() == n,
                acts.len() == n + 1,
                forall|j: int| 0 <= j < n ==> #[trigger] zs@[j].len() == self@.sizes[j + 1],
                forall|j: int| 0 <= j <= n ==> #[trigger] acts@[j].len() == self@.sizes[j],
                forall|j: int| 0 <= j < n ==> #[trigger] zs@[j]@ == pre_activation(start, x@, j),
                forall|j: int| 0 <= j <= n ==> #[trigger] acts@[j]@ == activation(start, x@, j),
                forall|j: int| 0 <= j < i ==> #[trigger] self@.weights[j] == start.weights[j],
                forall|j: int| 0 <= j < i ==> #[trigger] self@.biases[j] == start.biases[j],
                forall|j: int| i <= j < n ==> #[trigger] self@.weights[j] == goal.weights[j],
                forall|j: int| i <= j < n ==> #[trigger] self@.biases[j] == goal.biases[j],
            decreases i,
        {
            i = i - 1;
            let rows = self.sizes[i + 1];
            let cols = self.sizes[i];
            assert(self@.weights[i as int].len() == rows * cols);
            assert(self@.biases[i as int].len() == rows);
            assert(self@.weights[i as int] == start.weights[i as int]);
            assert(self@.biases[i as int] == start.biases[i as int]);
            let below = if i > 0 {
                let back = transpose_times(&self.weights[i], rows, cols, &delta);
                hadamard(&back, &map_sigmoid_prime(&zs[i - 1]))
            } else {
                Vec::new()
            };
            proof {
                if i > 0 {
                    assert(zs@[i - 1]@ == pre_activation(start, x@, i - 1));
                    assert(below@ == layer_error(start, x@, y@, i - 1));
                }
            }
            let nw = outer_step(&self.weights[i], rows, cols, &delta, &acts[i], learning_rate);
            let nb = scaled_step(&self.biases[i], &delta, learning_rate);
            assert(acts@[i as int]@ == activation(start, x@, i as int));
            assert(nw@ == goal.weights[i as int]);
            assert(nb@ == goal.biases[i as int]);
            let ghost before = self@;
            self.weights.set(i, nw);
            self.biases.set(i, nb);
            assert(self@.sizes == before.sizes);
            assert forall|j: int| 0 <= j < self@.weights.len() implies #[trigger] self@.weights[j]
                == if j == i { nw@ } else { before.weights[j] } by {
            }
            assert forall|j: int| 0 <= j < self@.biases.len() implies #[trigger] self@.biases[j]
                == if j == i { nb@ } else { before.biases[j] } by {
            }
            assert forall|j: int| 0 <= j < self@.weights.len() implies #[trigger] self@.weights[j].len()
                == self@.sizes[j + 1] * self@.sizes[j] by {
                if j != i {
                    assert(self@.weights[j] == before.weights[j]);
                }
            }
            assert forall|j: int| 0 <= j < self@.biases.len() implies #[trigger] self@.biases[j].len()
                == self@.sizes[j + 1] by {
                if j != i {
                    assert(self@.biases[j] == before.biases[j]);
                }
            }
            delta = below;
        }
        assert(self@.weights =~= goal.weights);
        assert(self@.biases =~= goal.biases);
    }

    /// Trains for `epochs` epochs. Each epoch shuffles `data` in place with
    /// `rng`, then takes one gradient step per sample in the shuffled order.
    ///
    /// Fails with `DimensionMismatch`, before any change, when there is an
    /// epoch to run and some sample does not fit the network. With no epoch
    /// to run or no sample, the parameters stay as they are.
    pub fn train(
        &mut self,
        data: &mut Vec<(Vec<T>, Vec<T>)>,
        epochs: usize,
        learning_rate: T,
        rng: &mut StdRng,
    ) -> (r: Result<(), NetError>)
        requires
            old(self).wf(),
        ensures
            final(self).wf(),
            final(self)@.sizes == old(self)@.sizes,
            final(data)@.to_multiset() == old(data)@.to_multiset(),
            r is Err <==> epochs > 0 && exists|k: int|
                0 <= k < old(data)@.len() && !#[trigger] sample_fits(old(self)@.sizes, old(data)@[k]),
            r is Err ==> r->Err_0 == NetError::DimensionMismatch && final(self)@ == old(self)@
                && final(data)@ == old(data)@,
            epochs == 0 || old(data)@.len() == 0 ==> final(self)@ == old(self)@,
            epochs == 0 ==> final(data)@ == old(data)@,
            r is Ok ==> exists|orders: Seq<Seq<(Vec<T>, Vec<T>)>>|
                orders.len() == epochs && #[trigger] trained_along(
                    old(self)@,
                    old(data)@,
                    learning_rate,
                    orders,
                    final(self)@,
                    final(data)@,
                ),
    {
        if epochs == 0 {
            proof {
                let none: Seq<Seq<(Vec<T>, Vec<T>)>> = Seq::empty();
                assert(trained_along(old(self)@, old(data)@, learning_rate, none, self@, data@));
            }
            return Ok(());
        }
        if !self.samples_fit(data) {
            return Err(NetError::DimensionMismatch);
        }
        let ghost start = data@;
        let ghost orders: Seq<Seq<(Vec<T>, Vec<T>)>> = Seq::empty();
        let mut e: usize = 0;
        while e < epochs
            invariant
                self.wf(),
                self@.sizes == old(self)@.sizes,
                e <= epochs,
                data@.to_multiset() == start.to_multiset(),
                data@.len() == start.len(),
                forall|k: int| 0 <= k < data@.len() ==> #[trigger] sample_fits(self@.sizes, data@[k]),
                start.len() == 0 ==> self@ == old(self)@,
                start == old(data)@,
                orders.len() == e,
                forall|j: int| 0 <= j < e ==> (#[trigger] orders[j]).to_multiset() == start.to_multiset(),
                e > 0 ==> data@ == orders[e - 1],
                self@ == train_spec(old(self)@, orders, learning_rate, e as int),
            decreases epochs - e,
        {
            let ghost before = data@;
            shuffle_in_place(data, rng);
            proof {
                lemma_reorder_keeps_fit(self@.sizes, before, data@);
                let prev = orders;
                lemma_train_prefix(old(self)@, prev, seq![data@], learning_rate, e as int);
                orders = prev + seq![data@];
                assert(orders[e as int] == data@);
                assert forall|j: int| 0 <= j <= e implies (#[trigger] orders[j]).to_multiset()
                    == start.to_multiset() by {
                    if j < e {
                        assert(orders[j] == prev[j]);
                    }
                }
            }
            let ghost base = self@;
            let mut k: usize = 0;
            while k < data.len()
                invariant
                    self.wf(),
                    self@.sizes == old(self)@.sizes,
                    k <= data.len(),
                    data@.len() == start.len(),
                    forall|j: int| 0 <= j < data@.len() ==> #[trigger] sample_fits(self@.sizes, data@[j]),
                    start.len() == 0 ==> self@ == old(self)@,
                self@ == epoch_spec(base, data@, learning_rate, k as int),
                base == train_spec(old(self)@, orders, learning_rate, e as int),
                orders.len() == e + 1,
                orders[e as int] == data@,
                decreases data.len() - k,
            {
                assert(sample_fits(self@.sizes, data@[k as int]));
                self.sgd_step(&data[k].0, &data[k].1, learning_rate);
                k = k + 1;
            }
            e = e + 1;
        }
        assert(trained_along(old(self)@, old(data)@, learning_rate, orders, self@, data@));
        Ok(())
    }
}

} // verus!
