//! Input saliency: the backward recursion of training, with no update.
use vstd::prelude::*;

use crate::error::NetError;
use crate::linalg::{
    argmax, difference, hadamard, map_sigmoid_prime, one_hot, one_hot_spec, transpose_spec,
    transpose_times,
};
use crate::network::{layer_error, pre_activation, predicted_class, Network, NetworkView};
use crate::scalar::Scalar;

verus! {

/// The saliency of `input`: `W_0ᵀ · delta_0`, where the errors run against
/// the one-hot vector of the predicted class.
pub open spec fn saliency_spec<T: Scalar>(v: NetworkView<T>, input: Seq<T>) -> Seq<T> {
    let out_len = v.sizes[v.sizes.len() - 1] as int;
    let target = one_hot_spec::<T>(out_len, predicted_class(v, input));
    transpose_spec(v.weights[0], v.sizes[1] as int, v.sizes[0] as int, layer_error(v, input, target, 0))
}

impl<T: Scalar> Network<T> {
    /// The sensitivity of the predicted class's score to each input feature.
    ///
    /// The target is the one-hot vector of the predicted class. The error
    /// `delta_n = (a_n - target) ⊙ sigmoid'(z_n)` propagates down as in
    /// training, `delta_{i-1} = (W_iᵀ · delta_i) ⊙ sigmoid'(z_{i-1})`, and the
    /// result is one step further, `W_1ᵀ · delta_1`, with no derivative
    /// applied. The parameters are only read.
    pub fn saliency_map(&self, input: &Vec<T>) -> (r: Result<Vec<T>, NetError>)
        requires
            self.wf(),
        ensures
            r is Ok <==> input.len() == self.input_len(),
            r is Err ==> r->Err_0 == NetError::DimensionMismatch,
            r matches Ok(s) ==> s.len() == input.len() && s@ == saliency_spec(self@, input@),
    {
        if input.len() != self.sizes[0] {
            return Err(NetError::DimensionMismatch);
        }
        let (zs, acts) = self.feedforward_cached(input);
        let n = self.weights.len();
        let out = &acts[n];
        let predicted = argmax(out);
        let target: Vec<T> = one_hot(out.len(), predicted);
        let ghost tgt = target@;
        let mut delta = hadamard(&difference(out, &target), &map_sigmoid_prime(&zs[n - 1]));
        let mut i: usize = n - 1;
        while i > 0
            invariant
                self.wf(),
                n == self.layers(),
                i < n,
                delta.len() == self@.sizes[i + 1],
                delta@ == layer_error(self@, input@, tgt, i as int),
                forall|j: int| 0 <= j < n ==> #[trigger] zs@[j]@ == pre_activation(self@, input@, j),
                zs.len() == n,
                forall|j: int| 0 <= j < n ==> #[trigger] zs@[j].len() == self@.sizes[j + 1],
            decreases i,
        {
            assert(self@.weights[i as int].len() == self@.sizes[i + 1] * self@.sizes[i as int]);
            let back = transpose_times(&self.weights[i], self.sizes[i + 1], self.sizes[i], &delta);
            delta = hadamard(&back, &map_sigmoid_prime(&zs[i - 1]));
            i = i - 1;
        }
        assert(self@.weights[0].len() == self@.sizes[1] * self@.sizes[0]);
        Ok(transpose_times(&self.weights[0], self.sizes[1], self.sizes[0], &delta))
    }
}

} // verus!
