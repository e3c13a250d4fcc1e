//! The closed polymorphic wrapper over the four layer kinds.
//!
//! The two pooling kinds run their whole forward pass here. The
//! convolutional and dense kinds split theirs around the scalar fold (see
//! their modules), so the caller that drives a network matches on the
//! variant and steps those two through `forward_terms` / `finish_forward`.

use vstd::prelude::*;
use vstd::pervasive::unreached;
use crate::tensor::{Tensor, dims_ok, at, channel_dims};
use crate::convolutional_layer::ConvolutionalLayer;
use crate::max_pooling_layer::{MaxPoolingLayer, pool_forward_rel};
use crate::fully_connected_layer::FullyConnectedLayer;
use crate::unmax_pooling_layer::{UnMaxPoolingLayer, up_forward_rel};

verus! {

/// A layer of the network: exactly one of the four kinds.
pub enum Layer {
    /// A convolutional layer.
    Conv(ConvolutionalLayer),
    /// A max-pooling layer.
    Mxpl(MaxPoolingLayer),
    /// A fully connected layer.
    Fcl(FullyConnectedLayer),
    /// An upsampling layer.
    Unmxpl(UnMaxPoolingLayer),
}

impl Layer {
    /// The contained layer's own shape invariant.
    pub open spec fn wf(&self) -> bool {
        match self {
            Layer::Conv(a) => a.wf(),
            Layer::Mxpl(b) => b.wf(),
            Layer::Fcl(c) => c.wf(),
            Layer::Unmxpl(e) => e.wf(),
        }
    }

    /// Forward propagation for the two pooling kinds, whose passes need no
    /// scalar arithmetic. The convolutional and dense kinds are stepped
    /// through their own split passes instead, so they are ruled out here.
    pub fn forward_propagate(&mut self, input: Tensor) -> (r: Tensor)
        requires
            old(self).wf(),
            match *old(self) {
                Layer::Mxpl(m) => dims_ok(
                    &input,
                    m.input_depth as int,
                    m.input_size as int,
                    m.input_size as int,
                ),
                Layer::Unmxpl(u) => dims_ok(
                    &input,
                    u.input_depth as int,
                    u.input_size as int,
                    u.input_size as int,
                ),
                _ => false,
            },
        ensures
            *old(self) is Mxpl ==> *final(self) is Mxpl && pool_forward_rel(
                old(self)->Mxpl_0,
                final(self)->Mxpl_0,
                input,
                r,
            ),
            *old(self) is Unmxpl ==> *final(self) is Unmxpl && up_forward_rel(
                old(self)->Unmxpl_0,
                final(self)->Unmxpl_0,
                input,
                r,
            ),
    {
        match self {
            Layer::Mxpl(b) => b.forward_propagate(input),
            Layer::Unmxpl(e) => e.forward_propagate(input),
            _ => unreached(),
        }
    }

    /// The output value of a convolutional layer at `(channel, row, column)`.
    /// Only the convolutional kind keeps a readable output tensor, so any
    /// other kind is ruled out, as is an out-of-shape index.
    pub fn get_output(&self, index: (usize, usize, usize)) -> (r: u32)
        requires
            self.wf(),
            *self is Conv,
            index.0 < self->Conv_0.num_filters,
            index.1 < self->Conv_0.output_size,
            index.2 < self->Conv_0.output_size,
        ensures
            r == at(&self->Conv_0.output, index.0 as int, index.1 as int, index.2 as int),
    {
        match self {
            Layer::Conv(a) => {
                proof {
                    assert(channel_dims(
                        a.output@[index.0 as int],
                        a.output_size as int,
                        a.output_size as int,
                    ));
                }
                a.output[index.0][index.1][index.2]
            },
            _ => unreached(),
        }
    }
}

} // verus!
