//! A small feed-forward convolutional-network inference engine — a pipeline
//! of convolution, max-pooling, upsampling and dense layers that turns an
//! image tensor into a reconstructed image tensor and a scalar
//! reconstruction cost — together with the pure decision and text kernels of
//! the notification worker that ships beside it.
//!
//! Scalar values are carried as the bit patterns of IEEE 754
//! single-precision numbers (`u32`). Everything the engine decides about
//! them — shapes, index maps, padding, pooling scans and their recorded
//! coordinates, rectification, model validation — is verified here. The one
//! thing the crate does not execute is float arithmetic itself: the two
//! layers that accumulate products lay out exact, proved operand plans, and
//! the caller folds them (see `convolutional_layer` and
//! `fully_connected_layer`).

pub mod scalar;
pub mod tensor;
pub mod convolutional_layer;
pub mod max_pooling_layer;
pub mod unmax_pooling_layer;
pub mod fully_connected_layer;
pub mod layer;
pub mod cnn;
pub mod laws;
pub mod notifications;
pub mod bomb_task;
pub mod decimal;

use vstd::prelude::*;

verus! {

/// Side length of the square images the network consumes and reconstructs.
pub const IMAGE_SIZE: usize = 32;

/// Number of colour channels of those images.
pub const IMAGE_DEPTH: usize = 3;

/// Why a persisted parameter set was rejected while a network was being
/// rebuilt from it: one variant per layer kind whose declared shapes are
/// inconsistent. A rejected record never yields a layer, so a network is
/// either rebuilt whole or not at all.
#[derive(Clone, Copy, Debug, PartialEq, Eq, Structural)]
pub enum ModelError {
    BadConvolutionalShape,
    BadMaxPoolingShape,
    BadUnMaxPoolingShape,
    BadFullyConnectedShape,
}

} // verus!
