//! The network: an ordered pipeline of layers, rebuilt whole from a
//! persisted parameter set, and the per-pixel pairing that its
//! reconstruction cost is folded from.
//!
//! Rebuilding is all-or-nothing: the first record whose shapes are
//! inconsistent fails the whole load with that record's error, and no
//! network is handed out. The cost itself is a scalar fold (squared
//! differences averaged over every pixel); `cost_pairs` lays out the exact
//! operand pairs of that fold, in channel-row-column order, each output cell
//! of the terminal convolutional layer against the reference cell.

use vstd::prelude::*;
use vstd::pervasive::unreached;
use crate::tensor::{Tensor, dims_ok, at, channel_dims, flat_idx, lemma_flat_idx_mono};
use crate::convolutional_layer::{ConvolutionalLayer, KernelStack};
use crate::max_pooling_layer::MaxPoolingLayer;
use crate::fully_connected_layer::FullyConnectedLayer;
use crate::unmax_pooling_layer::UnMaxPoolingLayer;
use crate::layer::Layer;
use crate::{ModelError, IMAGE_SIZE, IMAGE_DEPTH};

verus! {

/// One persisted layer record: the plain parameter set of one layer kind,
/// scalar data as encoded values.
pub enum LayerRecord {
    /// A convolutional layer's parameters.
    Conv {
        input_size: usize,
        input_depth: usize,
        num_filters: usize,
        kernel_size: usize,
        output_size: usize,
        stride: usize,
        padding: usize,
        biases: Vec<u32>,
        kernels: KernelStack,
        sigmoid: bool,
    },
    /// A max-pooling layer's parameters.
    Mxpl {
        input_size: usize,
        input_depth: usize,
        kernel_size: usize,
        output_size: usize,
        stride: usize,
    },
    /// A fully connected layer's parameters.
    Fcl {
        input_size: usize,
        input_width: usize,
        input_depth: usize,
        output_width: usize,
        output_depth: usize,
        output_size: usize,
        weights: Vec<Vec<u32>>,
        biases: Vec<u32>,
    },
    /// An upsampling layer's parameters.
    Unmxpl { input_size: usize, input_depth: usize, output_size: usize },
}

/// Whether a record's declared shapes are consistent, by its kind's rule.
pub open spec fn record_ok(rec: LayerRecord) -> bool {
    match rec {
        LayerRecord::Conv {
            input_size,
            input_depth,
            num_filters,
            kernel_size,
            output_size,
            stride,
            padding,
            biases,
            kernels,
            sigmoid,
        } => ConvolutionalLayer::shape_ok(
            input_size as int,
            input_depth as int,
            num_filters as int,
            kernel_size as int,
            output_size as int,
            stride as int,
            padding as int,
            biases@,
            &kernels,
        ),
        LayerRecord::Mxpl { input_size, input_depth, kernel_size, output_size, stride } => {
            MaxPoolingLayer::shape_ok(
                input_size as int,
                kernel_size as int,
                output_size as int,
                stride as int,
            )
        },
        LayerRecord::Fcl {
            input_size,
            input_width,
            input_depth,
            output_width,
            output_depth,
            output_size,
            weights,
            biases,
        } => FullyConnectedLayer::shape_ok(
            input_size as int,
            output_width as int,
            output_depth as int,
            output_size as int,
            &weights,
            biases@,
        ),
        LayerRecord::Unmxpl { input_size, input_depth, output_size } => {
            output_size == 2 * input_size
        },
    }
}

/// The error a rejected record reports, by its kind.
pub open spec fn error_for(rec: LayerRecord) -> ModelError {
    match rec {
        LayerRecord::Conv { .. } => ModelError::BadConvolutionalShape,
        LayerRecord::Mxpl { .. } => ModelError::BadMaxPoolingShape,
        LayerRecord::Fcl { .. } => ModelError::BadFullyConnectedShape,
        LayerRecord::Unmxpl { .. } => ModelError::BadUnMaxPoolingShape,
    }
}

/// Whether a rebuilt layer carries exactly a record's kind and parameters.
pub open spec fn layer_matches(l: Layer, rec: LayerRecord) -> bool {
    match rec {
        LayerRecord::Conv {
            input_size,
            input_depth,
            num_filters,
            kernel_size,
            output_size,
            stride,
            padding,
            biases,
            kernels,
            sigmoid,
        } => {
            &&& l is Conv
            &&& l->Conv_0.wf()
            &&& l->Conv_0.input_size == input_size
            &&& l->Conv_0.input_depth == input_depth
            &&& l->Conv_0.num_filters == num_filters
            &&& l->Conv_0.kernel_size == kernel_size
            &&& l->Conv_0.output_size == output_size
            &&& l->Conv_0.stride == stride
            &&& l->Conv_0.padding == padding
            &&& l->Conv_0.biases == biases
            &&& l->Conv_0.kernels == kernels
            &&& l->Conv_0.sigmoid == sigmoid
        },
        LayerRecord::Mxpl { input_size, input_depth, kernel_size, output_size, stride } => {
            &&& l is Mxpl
            &&& l->Mxpl_0.wf()
            &&& l->Mxpl_0.input_size == input_size
            &&& l->Mxpl_0.input_depth == input_depth
            &&& l->Mxpl_0.kernel_size == kernel_size
            &&& l->Mxpl_0.output_size == output_size
            &&& l->Mxpl_0.stride == stride
        },
        LayerRecord::Fcl {
            input_size,
            input_width,
            input_depth,
            output_width,
            output_depth,
            output_size,
            weights,
            biases,
        } => {
            &&& l is Fcl
            &&& l->Fcl_0.wf()
            &&& l->Fcl_0.input_size == input_size
            &&& l->Fcl_0.input_width == input_width
            &&& l->Fcl_0.input_depth == input_depth
            &&& l->Fcl_0.output_width == output_width
            &&& l->Fcl_0.output_depth == output_depth
            &&& l->Fcl_0.output_size == output_size
            &&& l->Fcl_0.weights == weights
            &&& l->Fcl_0.biases == biases
        },
        LayerRecord::Unmxpl { input_size, input_depth, output_size } => {
            &&& l is Unmxpl
            &&& l->Unmxpl_0.wf()
            &&& l->Unmxpl_0.input_size == input_size
            &&& l->Unmxpl_0.input_depth == input_depth
            &&& l->Unmxpl_0.output_size == output_size
        },
    }
}


/// The position of the first record whose shapes are inconsistent, from
/// position `i` on.
pub open spec fn first_bad_from(s: Seq<LayerRecord>, i: int) -> Option<int>
    decreases s.len() - i,
{
    if i < 0 || i >= s.len() {
        None
    } else if !record_ok(s[i]) {
        Some(i)
    } else {
        first_bad_from(s, i + 1)
    }
}

/// The position of the first record whose shapes are inconsistent.
pub open spec fn first_bad(s: Seq<LayerRecord>) -> Option<int> {
    first_bad_from(s, 0)
}

/// While every record before `i` is consistent, the first inconsistent one
/// from the start is the first one from `i` on.
proof fn lemma_first_bad_skip(s: Seq<LayerRecord>, i: int)
    requires
        0 <= i <= s.len(),
        forall|k: int| #![trigger s[k]] 0 <= k < i ==> record_ok(s[k]),
    ensures
        first_bad(s) == first_bad_from(s, i),
    decreases i,
{
    if i > 0 {
        lemma_first_bad_skip(s, i - 1);
        assert(record_ok(s[i - 1]));
        assert(first_bad_from(s, i - 1) == first_bad_from(s, i));
    }
}

/// The network.
pub struct CNN {
    /// The layers, in pipeline order.
    pub layers: Vec<Layer>,
}

impl CNN {
    /// Every layer holds its shape invariant.
    pub open spec fn wf(&self) -> bool {
        forall|i: int| #![trigger self.layers@[i]]
            0 <= i < self.layers@.len() ==> self.layers@[i].wf()
    }

    /// Whether the pipeline ends in a convolutional layer that reconstructs
    /// an image-shaped tensor, the only terminal kind whose output can be
    /// read back.
    pub open spec fn terminal_ok(&self) -> bool {
        &&& self.layers@.len() >= 1
        &&& self.layers@.last() is Conv
        &&& self.layers@.last()->Conv_0.num_filters == IMAGE_DEPTH
        &&& self.layers@.last()->Conv_0.output_size == IMAGE_SIZE
    }

    /// Rebuilds a network from persisted records, in order, all or nothing:
    /// the first inconsistent record fails the load with its kind's error
    /// and no network is returned.
    #[verifier::loop_isolation(false)]
    pub fn from_records(records: Vec<LayerRecord>) -> (r: Result<CNN, ModelError>)
        ensures
            match r {
                Ok(c) => {
                    &&& c.layers@.len() == records@.len()
                    &&& forall|i: int| #![trigger records@[i]]
                        0 <= i < records@.len() ==> record_ok(records@[i])
                    &&& forall|i: int| #![trigger c.layers@[i]]
                        0 <= i < records@.len() ==> layer_matches(c.layers@[i], records@[i])
                    &&& c.wf()
                },
                Err(e) => {
                    &&& first_bad(records@) is Some
                    &&& e == error_for(records@[first_bad(records@).unwrap()])
                },
            },
    {
        let ghost orig = records@;
        let mut rem = records;
        let n: usize = rem.len();
        let mut layers: Vec<Layer> = Vec::new();
        proof {
            assert(rem@ =~= orig.subrange(0, n as int));
        }
        for i in 0..n
            invariant
                orig.len() == n,
                rem@ == orig.subrange(i as int, n as int),
                layers@.len() == i,
                forall|k: int| #![trigger orig[k]] 0 <= k < i ==> record_ok(orig[k]),
                forall|k: int| #![trigger layers@[k]]
                    0 <= k < i ==> layer_matches(layers@[k], orig[k]),
        {
            let rec = rem.remove(0);
            proof {
                assert(rec == orig[i as int]);
                assert(rem@ =~= orig.subrange(i + 1, n as int));
            }
            match rec {
                LayerRecord::Conv {
                    input_size,
                    input_depth,
                    num_filters,
                    kernel_size,
                    output_size,
                    stride,
                    padding,
                    biases,
                    kernels,
                    sigmoid,
                } => {
                    match ConvolutionalLayer::new(
                        input_size,
                        input_depth,
                        num_filters,
                        kernel_size,
                        output_size,
                        stride,
                        padding,
                        biases,
                        kernels,
                        sigmoid,
                    ) {
                        Ok(l) => {
                            layers.push(Layer::Conv(l));
                        },
                        Err(e) => {
                            proof {
                                assert(!record_ok(orig[i as int]));
                                lemma_first_bad_skip(orig, i as int);
                                assert(first_bad(orig) == Some(i as int));
                                assert(e == error_for(orig[i as int]));
                            }
                            return Err(e);
                        },
                    }
                },
                LayerRecord::Mxpl { input_size, input_depth, kernel_size, output_size, stride } => {
                    match MaxPoolingLayer::new(
                        input_size,
                        input_depth,
                        kernel_size,
                        output_size,
                        stride,
                    ) {
                        Ok(l) => {
                            layers.push(Layer::Mxpl(l));
                        },
                        Err(e) => {
                            proof {
                                assert(!record_ok(orig[i as int]));
                                lemma_first_bad_skip(orig, i as int);
                                assert(first_bad(orig) == Some(i as int));
                                assert(e == error_for(orig[i as int]));
                            }
                            return Err(e);
                        },
                    }
                },
                LayerRecord::Fcl {
                    input_size,
                    input_width,
                    input_depth,
                    output_width,
                    output_depth,
                    output_size,
                    weights,
                    biases,
                } => {
                    match FullyConnectedLayer::new(
                        input_size,
                        input_width,
                        input_depth,
                        output_width,
                        output_depth,
                        output_size,
                        weights,
                        biases,
                    ) {
                        Ok(l) => {
                            layers.push(Layer::Fcl(l));
                        },
                        Err(e) => {
                            proof {
                                assert(!record_ok(orig[i as int]));
                                lemma_first_bad_skip(orig, i as int);
                                assert(first_bad(orig) == Some(i as int));
                                assert(e == error_for(orig[i as int]));
                            }
                            return Err(e);
                        },
                    }
                },
                LayerRecord::Unmxpl { input_size, input_depth, output_size } => {
                    match UnMaxPoolingLayer::new(input_size, input_depth, output_size) {
                        Ok(l) => {
                            layers.push(Layer::Unmxpl(l));
                        },
                        Err(e) => {
                            proof {
                                assert(!record_ok(orig[i as int]));
                                lemma_first_bad_skip(orig, i as int);
                                assert(first_bad(orig) == Some(i as int));
                                assert(e == error_for(orig[i as int]));
                            }
                            return Err(e);
                        },
                    }
                },
            }
        }
        Ok(CNN { layers })
    }

    /// Lays out the operand pairs of the reconstruction cost, in flat
    /// channel-row-column order: each cell of the terminal convolutional
    /// layer's output against the matching cell of the reference image. The
    /// caller folds the mean of the squared differences over the pairs.
    pub fn cost_pairs(&self, image: &Tensor) -> (pairs: Vec<(u32, u32)>)
        requires
            self.wf(),
            self.terminal_ok(),
            dims_ok(image, IMAGE_DEPTH as int, IMAGE_SIZE as int, IMAGE_SIZE as int),
        ensures
            pairs@.len() == (IMAGE_DEPTH as int) * (IMAGE_SIZE as int) * (IMAGE_SIZE as int),
            forall|z: int, y: int, x: int| #![trigger at(image, z, y, x)]
                0 <= z < IMAGE_DEPTH && 0 <= y < IMAGE_SIZE && 0 <= x < IMAGE_SIZE
                    ==> pairs@[flat_idx(z, y, x, IMAGE_SIZE as int, IMAGE_SIZE as int)] == (
                        at(&self.layers@.last()->Conv_0.output, z, y, x),
                        at(image, z, y, x),
                    ),
    {
        let last: usize = self.layers.len() - 1;
        let d: usize = IMAGE_DEPTH;
        let s: usize = IMAGE_SIZE;
        let mut pairs: Vec<(u32, u32)> = Vec::new();
        match &self.layers[last] {
            Layer::Conv(c) => {
                proof {
                    assert(self.layers@[last as int] == self.layers@.last());
                    assert(0 * (s as int) * (s as int) == 0) by (nonlinear_arith);
                }
                for z in 0..d
                    invariant
                        self.layers@[last as int] is Conv,
                        c == self.layers@[last as int]->Conv_0,
                        c.wf(),
                        c.num_filters == d,
                        c.output_size == s,
                        dims_ok(image, d as int, s as int, s as int),
                        pairs@.len() == z * (s as int) * (s as int),
                        forall|a: int, b: int, e: int| #![trigger at(image, a, b, e)]
                            0 <= a < z && 0 <= b < s && 0 <= e < s
                                ==> pairs@[flat_idx(a, b, e, s as int, s as int)] == (
                                    at(&c.output, a, b, e),
                                    at(image, a, b, e),
                                ),
                {
                    proof {
                        assert(0 * (s as int) == 0) by (nonlinear_arith);
                    }
                    for y in 0..s
                        invariant
                            self.layers@[last as int] is Conv,
                            c == self.layers@[last as int]->Conv_0,
                            c.wf(),
                            c.num_filters == d,
                            c.output_size == s,
                            z < d,
                            dims_ok(image, d as int, s as int, s as int),
                            pairs@.len() == z * (s as int) * (s as int) + y * (s as int),
                            forall|a: int, b: int, e: int| #![trigger at(image, a, b, e)]
                                0 <= a < z && 0 <= b < s && 0 <= e < s
                                    ==> pairs@[flat_idx(a, b, e, s as int, s as int)] == (
                                        at(&c.output, a, b, e),
                                        at(image, a, b, e),
                                    ),
                            forall|b: int, e: int| #![trigger at(image, z as int, b, e)]
                                0 <= b < y && 0 <= e < s
                                    ==> pairs@[flat_idx(z as int, b, e, s as int, s as int)] == (
                                        at(&c.output, z as int, b, e),
                                        at(image, z as int, b, e),
                                    ),
                    {
                        for x in 0..s
                            invariant
                                self.layers@[last as int] is Conv,
                                c == self.layers@[last as int]->Conv_0,
                                c.wf(),
                                c.num_filters == d,
                                c.output_size == s,
                                z < d,
                                y < s,
                                dims_ok(image, d as int, s as int, s as int),
                                pairs@.len() == z * (s as int) * (s as int) + y * (s as int) + x,
                                forall|a: int, b: int, e: int| #![trigger at(image, a, b, e)]
                                    0 <= a < z && 0 <= b < s && 0 <= e < s
                                        ==> pairs@[flat_idx(a, b, e, s as int, s as int)] == (
                                            at(&c.output, a, b, e),
                                            at(image, a, b, e),
                                        ),
                                forall|b: int, e: int| #![trigger at(image, z as int, b, e)]
                                    0 <= b < y && 0 <= e < s
                                        ==> pairs@[flat_idx(z as int, b, e, s as int, s as int)]
                                            == (
                                            at(&c.output, z as int, b, e),
                                            at(image, z as int, b, e),
                                        ),
                                forall|e: int| #![trigger at(image, z as int, y as int, e)]
                                    0 <= e < x
                                        ==> pairs@[flat_idx(
                                            z as int, y as int, e, s as int, s as int)] == (
                                            at(&c.output, z as int, y as int, e),
                                            at(image, z as int, y as int, e),
                                        ),
                        {
                            let ghost p0 = pairs@;
                            proof {
                                assert(channel_dims(c.output@[z as int], s as int, s as int));
                                assert(channel_dims(image@[z as int], s as int, s as int));
                            }
                            pairs.push((c.output[z][y][x], image[z][y][x]));
                            proof {
                                assert forall|a: int, b: int, e: int|
                                    0 <= a < z && 0 <= b < s && 0 <= e < s implies
                                    pairs@[flat_idx(a, b, e, s as int, s as int)] == (
                                        at(&c.output, a, b, e),
                                        at(image, a, b, e),
                                    ) by {
                                    lemma_flat_idx_mono(
                                        a, b, e, z as int, y as int, x as int, s as int, s as int);
                                    assert(p0[flat_idx(a, b, e, s as int, s as int)] == (
                                        at(&c.output, a, b, e),
                                        at(image, a, b, e),
                                    ));
                                }
                                assert forall|b: int, e: int|
                                    0 <= b < y && 0 <= e < s implies
                                    pairs@[flat_idx(z as int, b, e, s as int, s as int)] == (
                                        at(&c.output, z as int, b, e),
                                        at(image, z as int, b, e),
                                    ) by {
                                    lemma_flat_idx_mono(
                                        z as int, b, e, z as int, y as int, x as int, s as int,
                                        s as int);
                                    assert(p0[flat_idx(z as int, b, e, s as int, s as int)] == (
                                        at(&c.output, z as int, b, e),
                                        at(image, z as int, b, e),
                                    ));
                                }
                                assert forall|e: int|
                                    0 <= e < x + 1 implies
                                    pairs@[flat_idx(z as int, y as int, e, s as int, s as int)]
                                        == (
                                        at(&c.output, z as int, y as int, e),
                                        at(image, z as int, y as int, e),
                                    ) by {
                                    if e < x {
                                        lemma_flat_idx_mono(
                                            z as int, y as int, e, z as int, y as int, x as int,
                                            s as int, s as int);
                                        assert(p0[flat_idx(
                                            z as int, y as int, e, s as int, s as int)] == (
                                            at(&c.output, z as int, y as int, e),
                                            at(image, z as int, y as int, e),
                                        ));
                                    } else {
                                        assert(pairs@[flat_idx(
                                            z as int, y as int, e, s as int, s as int)]
                                            == pairs@[p0.len() as int]);
                                    }
                                }
                            }
                        }
                        proof {
                            assert((y + 1) * (s as int) == y * (s as int) + (s as int))
                                by (nonlinear_arith);
                        }
                    }
                    proof {
                        assert((z + 1) * (s as int) * (s as int)
                            == z * (s as int) * (s as int) + (s as int) * (s as int))
                            by (nonlinear_arith);
                    }
                }
            },
            _ => {
                proof {
                    assert(self.layers@[last as int] == self.layers@.last());
                }
                return unreached();
            },
        }
        pairs
    }
}

} // verus!
