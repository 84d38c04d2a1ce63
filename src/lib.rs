//! A small fully-connected sigmoid network: forward pass, per-sample
//! gradient descent and input saliency, generic over the scalar type.

mod error;
mod linalg;
mod network;
mod saliency;
mod scalar;
mod serialization;
mod train;

pub use error::NetError;
pub use linalg::{
    affine, affine_spec, argmax, col_dot, copy_vec, difference, difference_spec, first_max,
    hadamard, hadamard_spec, lemma_flat_index, map_sigmoid,
    map_sigmoid_prime, one_hot, one_hot_spec, outer_step, outer_step_spec, row_dot, scaled_step,
    scaled_step_spec, sigmoid_map, sigmoid_prime_map, transpose_spec, transpose_times,
};
pub use network::{
    activation, check_topology, forward_spec, layer_error, pre_activation, predicted_class,
    shapes_match, valid_topology, Network, NetworkView,
};
pub use saliency::saliency_spec;
pub use scalar::{sigmoid_prime, sigmoid_prime_spec, ParamSource, Scalar};
pub use serialization::{
    check_records, lemma_save_load_round_trip, network_of_records, records_describe,
    records_well_shaped, sizes_of_records, SerializableMatrix, SerializableNetwork,
    SerializableVector,
};
pub use train::{
    epoch_spec, lemma_single_sample_epochs_add, lemma_single_sample_order, lemma_train_in_two_runs,
    lemma_train_prefix, sample_fits, step_spec, train_spec, trained_along,
};
