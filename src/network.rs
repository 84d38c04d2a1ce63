//! The network's parameters, their shape invariant, and the forward pass.
use vstd::prelude::*;

use crate::error::NetError;
use crate::linalg::{
    affine, affine_spec, argmax, copy_vec, difference_spec, first_max, hadamard_spec, map_sigmoid,
    sigmoid_map, sigmoid_prime_map, transpose_spec,
};
use crate::scalar::{ParamSource, Scalar};

verus! {

/// A topology: at least two layer sizes, none of them zero.
pub open spec fn valid_topology(sizes: Seq<usize>) -> bool {
    &&& sizes.len() >= 2
    &&& forall|i: int| 0 <= i < sizes.len() ==> #[trigger] sizes[i] > 0
}

/// What a network holds: its topology, and per layer `i` (from 0) a weight
/// matrix of `sizes[i + 1]` rows and `sizes[i]` columns, row by row, and a
/// bias vector of `sizes[i + 1]` entries.
pub struct NetworkView<T> {
    pub sizes: Seq<usize>,
    pub weights: Seq<Seq<T>>,
    pub biases: Seq<Seq<T>>,
}

/// The shapes of the weights and biases follow the topology.
pub open spec fn shapes_match<T>(v: NetworkView<T>) -> bool {
    &&& valid_topology(v.sizes)
    &&& v.weights.len() == v.sizes.len() - 1
    &&& v.biases.len() == v.sizes.len() - 1
    &&& forall|i: int|
        0 <= i < v.weights.len() ==> #[trigger] v.weights[i].len() == v.sizes[i + 1] * v.sizes[i]
    &&& forall|i: int| 0 <= i < v.biases.len() ==> #[trigger] v.biases[i].len() == v.sizes[i + 1]
}


/// The activations `a_i` for `input`: `a_0` is the input, and
/// `a_{i+1} = sigmoid(W_i · a_i + b_i)` with layers counted from 0.
pub open spec fn activation<T: Scalar>(v: NetworkView<T>, input: Seq<T>, i: int) -> Seq<T>
    decreases i,
{
    if i <= 0 {
        input
    } else {
        sigmoid_map(
            affine_spec(
                v.weights[i - 1],
                v.sizes[i] as int,
                v.sizes[i - 1] as int,
                v.biases[i - 1],
                activation(v, input, i - 1),
            ),
        )
    }
}

/// The pre-activation of layer `i` (from 0): `W_i · a_i + b_i`.
pub open spec fn pre_activation<T: Scalar>(v: NetworkView<T>, input: Seq<T>, i: int) -> Seq<T> {
    affine_spec(v.weights[i], v.sizes[i + 1] as int, v.sizes[i] as int, v.biases[i], activation(v, input, i))
}

/// The network's output for `input`: the last activation.
pub open spec fn forward_spec<T: Scalar>(v: NetworkView<T>, input: Seq<T>) -> Seq<T> {
    activation(v, input, v.sizes.len() - 1)
}

/// The error of layer `i` (from 0) against `target`. At the last layer it is
/// `(a_n - target) ⊙ sigmoid'(z_n)`; below, `(W_{i+1}ᵀ · delta_{i+1}) ⊙
/// sigmoid'(z_i)`, with the weights of `v` as they are.
pub open spec fn layer_error<T: Scalar>(v: NetworkView<T>, input: Seq<T>, target: Seq<T>, i: int) -> Seq<T>
    decreases v.sizes.len() - 2 - i,
{
    let n = v.sizes.len() - 1;
    if i >= n - 1 {
        hadamard_spec(
            difference_spec(activation(v, input, n), target),
            sigmoid_prime_map(pre_activation(v, input, n - 1)),
        )
    } else {
        hadamard_spec(
            transpose_spec(
                v.weights[i + 1],
                v.sizes[i + 2] as int,
                v.sizes[i + 1] as int,
                layer_error(v, input, target, i + 1),
            ),
            sigmoid_prime_map(pre_activation(v, input, i)),
        )
    }
}

/// The class the network predicts for `input`: the first index of a
/// largest output.
pub open spec fn predicted_class<T: Scalar>(v: NetworkView<T>, input: Seq<T>) -> int {
    first_max(forward_spec(v, input), v.sizes[v.sizes.len() - 1] as int)
}

/// A fully-connected feed-forward network with a sigmoid after every layer.
pub struct Network<T> {
    pub(crate) sizes: Vec<usize>,
    pub(crate) weights: Vec<Vec<T>>,
    pub(crate) biases: Vec<Vec<T>>,
}

impl<T> View for Network<T> {
    type V = NetworkView<T>;

    open(crate) spec fn view(&self) -> NetworkView<T> {
        NetworkView {
            sizes: self.sizes@,
            weights: self.weights@.map_values(|w: Vec<T>| w@),
            biases: self.biases@.map_values(|b: Vec<T>| b@),
        }
    }
}

impl<T> Network<T> {
    /// The network's parameters have the shapes its topology asks for.
    pub open spec fn wf(&self) -> bool {
        shapes_match(self@)
    }

    /// The number of layers with parameters, one less than the number of sizes.
    pub open spec fn layers(&self) -> nat {
        (self@.sizes.len() - 1) as nat
    }

    /// The input dimension.
    pub open spec fn input_len(&self) -> usize {
        self@.sizes[0]
    }

    /// The output dimension.
    pub open spec fn output_len(&self) -> usize {
        self@.sizes[self@.sizes.len() - 1]
    }
}

impl<T> Network<T> {
    /// The number of layers with parameters.
    pub fn layer_count(&self) -> (n: usize)
        requires
            self.wf(),
        ensures
            n == self.layers(),
    {
        self.weights.len()
    }

    /// The topology.
    pub fn sizes(&self) -> (s: &Vec<usize>)
        ensures
            s@ == self@.sizes,
    {
        &self.sizes
    }

    /// The weight matrix of layer `i` (from 0), row by row.
    pub fn layer_weights(&self, i: usize) -> (w: &Vec<T>)
        requires
            self.wf(),
            i < self.layers(),
        ensures
            w@ == self@.weights[i as int],
    {
        &self.weights[i]
    }

    /// The bias vector of layer `i` (from 0).
    pub fn layer_biases(&self, i: usize) -> (b: &Vec<T>)
        requires
            self.wf(),
            i < self.layers(),
        ensures
            b@ == self@.biases[i as int],
    {
        &self.biases[i]
    }
}

/// Whether every size is positive and there are at least two of them.
pub fn check_topology(sizes: &Vec<usize>) -> (ok: bool)
    ensures
        ok == valid_topology(sizes@),
{
    if sizes.len() < 2 {
        return false;
    }
    let mut i: usize = 0;
    while i < sizes.len()
        invariant
            i <= sizes.len(),
            forall|j: int| 0 <= j < i ==> #[trigger] sizes@[j] > 0,
        decreases sizes.len() - i,
    {
        if sizes[i] == 0 {
            return false;
        }
        i = i + 1;
    }
    true
}

/// `count` values drawn one after another from `source`.
fn draw_values<T, S: ParamSource<T>>(source: &mut S, count: usize) -> (v: Vec<T>)
    ensures
        v.len() == count,
{
    let mut v: Vec<T> = Vec::new();
    let mut i: usize = 0;
    while i < count
        invariant
            i <= count,
            v.len() == i,
        decreases count - i,
    {
        v.push(source.draw());
        i = i + 1;
    }
    v
}

/// A `rows` by `cols` matrix of values drawn from `source`, row by row.
fn draw_matrix<T, S: ParamSource<T>>(source: &mut S, rows: usize, cols: usize) -> (m: Vec<T>)
    ensures
        m.len() == rows * cols,
{
    let mut m: Vec<T> = Vec::new();
    let mut r: usize = 0;
    while r < rows
        invariant
            r <= rows,
            m.len() == r * cols,
        decreases rows - r,
    {
        let mut c: usize = 0;
        while c < cols
            invariant
                r < rows,
                c <= cols,
                m.len() == r * cols + c,
            decreases cols - c,
        {
            m.push(source.draw());
            c = c + 1;
        }
        assert(m.len() == (r + 1) * cols) by (nonlinear_arith)
            requires
                m.len() == r * cols + cols,
        ;
        r = r + 1;
    }
    m
}

impl<T: Scalar> Network<T> {
    /// A network of the given topology whose parameters are drawn from
    /// `source`: first every weight, layer by layer and row by row, then
    /// every bias, layer by layer.
    pub fn new<S: ParamSource<T>>(sizes: &Vec<usize>, source: &mut S) -> (r: Result<
        Network<T>,
        NetError,
    >)
        ensures
            r is Err <==> !valid_topology(sizes@),
            r is Err ==> r->Err_0 == NetError::InvalidTopology,
            r matches Ok(net) ==> net.wf() && net@.sizes == sizes@,
    {
        if !check_topology(sizes) {
            return Err(NetError::InvalidTopology);
        }
        let n = sizes.len() - 1;
        let mut weights: Vec<Vec<T>> = Vec::new();
        let mut i: usize = 0;
        while i < n
            invariant
                n == sizes.len() - 1,
                i <= n,
                weights.len() == i,
                forall|j: int|
                    0 <= j < i ==> #[trigger] weights@[j].len() == sizes@[j + 1] * sizes@[j],
            decreases n - i,
        {
            let m = draw_matrix(source, sizes[i + 1], sizes[i]);
            weights.push(m);
            i = i + 1;
        }
        let mut biases: Vec<Vec<T>> = Vec::new();
        let mut i: usize = 0;
        while i < n
            invariant
                n == sizes.len() - 1,
                i <= n,
                biases.len() == i,
                forall|j: int| 0 <= j < i ==> #[trigger] biases@[j].len() == sizes@[j + 1],
            decreases n - i,
        {
            let b = draw_values(source, sizes[i + 1]);
            biases.push(b);
            i = i + 1;
        }
        let net = Network { sizes: sizes.clone(), weights, biases };
        assert(net.sizes@ =~= sizes@);
        assert forall|j: int| 0 <= j < net@.weights.len() implies #[trigger] net@.weights[j].len()
            == net@.sizes[j + 1] * net@.sizes[j] by {
            assert(net@.weights[j] == net.weights@[j]@);
            assert(weights@[j].len() == sizes@[j + 1] * sizes@[j]);
        }
        assert forall|j: int| 0 <= j < net@.biases.len() implies #[trigger] net@.biases[j].len()
            == net@.sizes[j + 1] by {
            assert(net@.biases[j] == net.biases@[j]@);
            assert(biases@[j].len() == sizes@[j + 1]);
        }
        assert(net.wf());
        Ok(net)
    }

    /// Runs the forward pass and keeps what backpropagation needs: the
    /// pre-activations `z_1..z_n` (as `zs[0..n]`) and the activations
    /// `a_0..a_n`, with `a_0` the input.
    pub fn feedforward_cached(&self, input: &Vec<T>) -> (r: (Vec<Vec<T>>, Vec<Vec<T>>))
        requires
            self.wf(),
            input.len() == self.input_len(),
        ensures
            r.0.len() == self.layers(),
            r.1.len() == self.layers() + 1,
            forall|i: int| 0 <= i < self.layers() ==> #[trigger] r.0@[i].len() == self@.sizes[i + 1],
            forall|i: int| 0 <= i <= self.layers() ==> #[trigger] r.1@[i].len() == self@.sizes[i],
            r.1@[0]@ == input@,
            forall|i: int| 0 <= i < self.layers() ==> #[trigger] r.0@[i]@ == pre_activation(self@, input@, i),
            forall|i: int| 0 <= i <= self.layers() ==> #[trigger] r.1@[i]@ == activation(self@, input@, i),
    {
        let n = self.weights.len();
        let mut zs: Vec<Vec<T>> = Vec::new();
        let mut acts: Vec<Vec<T>> = Vec::new();
        acts.push(copy_vec(input));
        let mut i: usize = 0;
        while i < n
            invariant
                self.wf(),
                n == self.layers(),
                i <= n,
                zs.len() == i,
                acts.len() == i + 1,
                forall|j: int| 0 <= j < i ==> #[trigger] zs@[j].len() == self.sizes@[j + 1],
                forall|j: int| 0 <= j <= i ==> #[trigger] acts@[j].len() == self.sizes@[j],
                acts@[0]@ == input@,
                forall|j: int| 0 <= j < i ==> #[trigger] zs@[j]@ == pre_activation(self@, input@, j),
                forall|j: int| 0 <= j <= i ==> #[trigger] acts@[j]@ == activation(self@, input@, j),
            decreases n - i,
        {
            assert(self@.weights[i as int].len() == self.sizes@[i + 1] * self.sizes@[i as int]);
            assert(self@.biases[i as int].len() == self.sizes@[i + 1]);
            let z = affine(&self.weights[i], self.sizes[i + 1], self.sizes[i], &self.biases[i], &acts[i]);
            let a = map_sigmoid(&z);
            assert(a@ == activation(self@, input@, i + 1));
            zs.push(z);
            acts.push(a);
            i = i + 1;
        }
        (zs, acts)
    }

    /// The network's output for `input`: for each layer in turn,
    /// `a = sigmoid(W · a + b)`.
    pub fn feedforward(&self, input: &Vec<T>) -> (r: Result<Vec<T>, NetError>)
        requires
            self.wf(),
        ensures
            r is Ok <==> input.len() == self.input_len(),
            r is Err ==> r->Err_0 == NetError::DimensionMismatch,
            r matches Ok(out) ==> out.len() == self.output_len() && out@ == forward_spec(self@, input@),
    {
        if input.len() != self.sizes[0] {
            return Err(NetError::DimensionMismatch);
        }
        let (_, mut acts) = self.feedforward_cached(input);
        let out = acts.pop().unwrap();
        Ok(out)
    }

    /// The index of the largest output; the lowest such index on a tie.
    pub fn predict(&self, input: &Vec<T>) -> (r: Result<usize, NetError>)
        requires
            self.wf(),
        ensures
            r is Ok <==> input.len() == self.input_len(),
            r is Err ==> r->Err_0 == NetError::DimensionMismatch,
            r matches Ok(k) ==> k < self.output_len() && k == predicted_class(self@, input@),
    {
        let out = self.feedforward(input)?;
        Ok(argmax(&out))
    }
}

} // verus!
