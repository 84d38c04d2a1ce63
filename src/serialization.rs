//! The persisted record shape of a network's parameters: per layer, a
//! weight record (row count, column count, entries row by row) and a bias
//! record (entries), in layer order.
use vstd::prelude::*;

use crate::error::NetError;
use crate::linalg::copy_vec;
use crate::network::{Network, NetworkView};

verus! {

/// A matrix of `nrows` by `ncols` entries, held row by row.
pub struct SerializableMatrix<T> {
    pub nrows: usize,
    pub ncols: usize,
    pub data: Vec<T>,
}

/// A vector of entries.
pub struct SerializableVector<T> {
    pub data: Vec<T>,
}

/// The weight records then the bias records of a network, in layer order.
pub struct SerializableNetwork<T> {
    pub weights: Vec<SerializableMatrix<T>>,
    pub biases: Vec<SerializableVector<T>>,
}

/// The records describe a well-shaped network: at least one layer, one bias
/// record per weight record, no empty dimension, entry counts that match
/// the dimensions, and each layer's columns equal to the rows below it.
pub open spec fn records_well_shaped<T>(s: SerializableNetwork<T>) -> bool {
    let w = s.weights@;
    let b = s.biases@;
    &&& w.len() >= 1
    &&& b.len() == w.len()
    &&& forall|i: int|
        0 <= i < w.len() ==> {
            &&& #[trigger] w[i].nrows > 0
            &&& w[i].ncols > 0
            &&& w[i].data@.len() == w[i].nrows * w[i].ncols
            &&& b[i].data@.len() == w[i].nrows
        }
    &&& forall|i: int| 0 < i < w.len() ==> #[trigger] w[i].ncols == w[i - 1].nrows
}

/// The topology that weight records describe: the first layer's columns,
/// then each layer's rows.
pub open spec fn sizes_of_records<T>(s: SerializableNetwork<T>) -> Seq<usize> {
    let w = s.weights@;
    Seq::new(w.len() + 1, |k: int| if k == 0 { w[0].ncols } else { w[k - 1].nrows })
}

/// The network that records describe.
pub open spec fn network_of_records<T>(s: SerializableNetwork<T>) -> NetworkView<T> {
    NetworkView {
        sizes: sizes_of_records(s),
        weights: s.weights@.map_values(|m: SerializableMatrix<T>| m.data@),
        biases: s.biases@.map_values(|v: SerializableVector<T>| v.data@),
    }
}

/// The records hold exactly the parameters of `v`, with each weight
/// record's dimensions taken from the topology.
pub open spec fn records_describe<T>(s: SerializableNetwork<T>, v: NetworkView<T>) -> bool {
    &&& s.weights@.len() == v.weights.len()
    &&& s.biases@.len() == v.biases.len()
    &&& forall|i: int|
        0 <= i < s.weights@.len() ==> {
            &&& #[trigger] s.weights@[i].nrows == v.sizes[i + 1]
            &&& s.weights@[i].ncols == v.sizes[i]
            &&& s.weights@[i].data@ == v.weights[i]
        }
    &&& forall|i: int| 0 <= i < s.biases@.len() ==> #[trigger] s.biases@[i].data@ == v.biases[i]
}

/// Saving then loading gives back the same network: records that hold a
/// well-shaped network's parameters are well shaped, and describe exactly
/// that network, every weight and bias identical.
pub proof fn lemma_save_load_round_trip<T>(net: NetworkView<T>, s: SerializableNetwork<T>)
    requires
        crate::network::shapes_match(net),
        records_describe(s, net),
    ensures
        records_well_shaped(s),
        network_of_records(s) == net,
{
    let w = s.weights@;
    assert forall|i: int| 0 <= i < w.len() implies {
        &&& #[trigger] w[i].nrows > 0
        &&& w[i].ncols > 0
        &&& w[i].data@.len() == w[i].nrows * w[i].ncols
        &&& s.biases@[i].data@.len() == w[i].nrows
    } by {
        assert(s.weights@[i].nrows == net.sizes[i + 1]);
        assert(s.biases@[i].data@ == net.biases[i]);
        assert(net.sizes[i + 1] > 0);
        assert(net.sizes[i] > 0);
        assert(net.weights[i].len() == net.sizes[i + 1] * net.sizes[i]);
        assert(net.biases[i].len() == net.sizes[i + 1]);
    }
    assert forall|i: int| 0 < i < w.len() implies #[trigger] w[i].ncols == w[i - 1].nrows by {
        assert(s.weights@[i].nrows == net.sizes[i + 1]);
        assert(s.weights@[i - 1].nrows == net.sizes[i]);
    }
    let m = network_of_records(s);
    assert(m.sizes =~= net.sizes) by {
        assert forall|k: int| 0 <= k < m.sizes.len() implies m.sizes[k] == net.sizes[k] by {
            if k == 0 {
                assert(s.weights@[0].nrows == net.sizes[1]);
            } else {
                assert(s.weights@[k - 1].nrows == net.sizes[k]);
            }
        }
    }
    assert(m.weights =~= net.weights) by {
        assert forall|k: int| 0 <= k < m.weights.len() implies m.weights[k] == net.weights[k] by {
            assert(s.weights@[k].nrows == net.sizes[k + 1]);
        }
    }
    assert(m.biases =~= net.biases) by {
        assert forall|k: int| 0 <= k < m.biases.len() implies m.biases[k] == net.biases[k] by {
            assert(s.biases@[k].data@ == net.biases[k]);
        }
    }
}

impl<T: Copy> SerializableNetwork<T> {
    /// The records of a network's parameters.
    pub fn from_network(net: &Network<T>) -> (s: SerializableNetwork<T>)
        requires
            net.wf(),
        ensures
            records_describe(s, net@),
    {
        let n = net.weights.len();
        let mut weights: Vec<SerializableMatrix<T>> = Vec::new();
        let mut biases: Vec<SerializableVector<T>> = Vec::new();
        let mut i: usize = 0;
        while i < n
            invariant
                net.wf(),
                n == net.layers(),
                i <= n,
                weights.len() == i,
                biases.len() == i,
                forall|j: int|
                    0 <= j < i ==> {
                        &&& #[trigger] weights@[j].nrows == net@.sizes[j + 1]
                        &&& weights@[j].ncols == net@.sizes[j]
                        &&& weights@[j].data@ == net@.weights[j]
                    },
                forall|j: int| 0 <= j < i ==> #[trigger] biases@[j].data@ == net@.biases[j],
            decreases n - i,
        {
            let data = copy_vec(&net.weights[i]);
            weights.push(SerializableMatrix { nrows: net.sizes[i + 1], ncols: net.sizes[i], data });
            biases.push(SerializableVector { data: copy_vec(&net.biases[i]) });
            i = i + 1;
        }
        SerializableNetwork { weights, biases }
    }
}

/// Whether the records describe a well-shaped network.
pub fn check_records<T>(s: &SerializableNetwork<T>) -> (ok: bool)
    ensures
        ok == records_well_shaped(*s),
{
    let n = s.weights.len();
    if n == 0 || s.biases.len() != n {
        return false;
    }
    let mut i: usize = 0;
    while i < n
        invariant
            n == s.weights@.len(),
            n == s.biases@.len(),
            i <= n,
            forall|j: int|
                0 <= j < i ==> {
                    &&& #[trigger] s.weights@[j].nrows > 0
                    &&& s.weights@[j].ncols > 0
                    &&& s.weights@[j].data@.len() == s.weights@[j].nrows * s.weights@[j].ncols
                    &&& s.biases@[j].data@.len() == s.weights@[j].nrows
                },
            forall|j: int| 0 < j < i ==> #[trigger] s.weights@[j].ncols == s.weights@[j - 1].nrows,
        decreases n - i,
    {
        let m = &s.weights[i];
        if m.nrows == 0 || m.ncols == 0 {
            return false;
        }
        if m.data.len() / m.nrows != m.ncols || m.data.len() % m.nrows != 0 {
            proof {
                let (len, r, c) = (m.data.len() as int, m.nrows as int, m.ncols as int);
                if len == r * c {
                    assert((r * c) / r == c && (r * c) % r == 0) by (nonlinear_arith)
                        requires
                            r > 0,
                    ;
                }
            }
            return false;
        }
        proof {
            let (len, r, c) = (m.data.len() as int, m.nrows as int, m.ncols as int);
            assert(len == r * c) by (nonlinear_arith)
                requires
                    r > 0,
                    len / r == c,
                    len % r == 0,
            ;
        }
        if s.biases[i].data.len() != m.nrows {
            return false;
        }
        if i > 0 && m.ncols != s.weights[i - 1].nrows {
            return false;
        }
        i = i + 1;
    }
    true
}

impl<T: Copy> Network<T> {
    /// The network that `s` describes, or `SerializationError` when the
    /// records are not well shaped.
    pub fn from_serializable(s: &SerializableNetwork<T>) -> (r: Result<Network<T>, NetError>)
        ensures
            r is Ok <==> records_well_shaped(*s),
            r is Err ==> r->Err_0 == NetError::SerializationError,
            r matches Ok(net) ==> net.wf() && net@ == network_of_records(*s),
    {
        if !check_records(s) {
            return Err(NetError::SerializationError);
        }
        let n = s.weights.len();
        let mut sizes: Vec<usize> = Vec::new();
        sizes.push(s.weights[0].ncols);
        let mut weights: Vec<Vec<T>> = Vec::new();
        let mut biases: Vec<Vec<T>> = Vec::new();
        let mut i: usize = 0;
        while i < n
            invariant
                records_well_shaped(*s),
                n == s.weights@.len(),
                i <= n,
                sizes.len() == i + 1,
                weights.len() == i,
                biases.len() == i,
                forall|j: int| 0 <= j <= i ==> #[trigger] sizes@[j] == sizes_of_records(*s)[j],
                forall|j: int| 0 <= j < i ==> #[trigger] weights@[j]@ == s.weights@[j].data@,
                forall|j: int| 0 <= j < i ==> #[trigger] biases@[j]@ == s.biases@[j].data@,
            decreases n - i,
        {
            sizes.push(s.weights[i].nrows);
            weights.push(copy_vec(&s.weights[i].data));
            biases.push(copy_vec(&s.biases[i].data));
            i = i + 1;
        }
        let net = Network { sizes, weights, biases };
        let ghost m = network_of_records(*s);
        assert(net@.sizes =~= m.sizes);
        assert(net@.weights =~= m.weights);
        assert(net@.biases =~= m.biases);
        assert forall|j: int| 0 <= j < m.sizes.len() implies #[trigger] m.sizes[j] > 0 by {
            if j > 0 {
                assert(s.weights@[j - 1].nrows > 0);
            } else {
                assert(s.weights@[0].nrows > 0);
            }
        }
        assert forall|j: int| 0 <= j < m.weights.len() implies #[trigger] m.weights[j].len()
            == m.sizes[j + 1] * m.sizes[j] by {
            assert(s.weights@[j].nrows > 0);
            if j > 0 {
                assert(s.weights@[j].ncols == s.weights@[j - 1].nrows);
            }
        }
        assert forall|j: int| 0 <= j < m.biases.len() implies #[trigger] m.biases[j].len()
            == m.sizes[j + 1] by {
            assert(s.weights@[j].nrows > 0);
        }
        Ok(net)
    }
}

} // verus!
