//! Laws of the engine that span more than one contract, stated and proved
//! once so that a reader sees them rather than derives them.

use vstd::prelude::*;
use crate::tensor::{Tensor, dims_ok, at, flat_idx};
use crate::convolutional_layer::{ConvolutionalLayer, KernelStack, kern_dims_ok, kern_at, pad_at,
    cell_terms_ok, plan_row_ok, plan_chan_ok};
use crate::max_pooling_layer::{MaxPoolingLayer, pool_forward_rel};
use crate::unmax_pooling_layer::{UnMaxPoolingLayer, up_forward_rel};

verus! {

/// A well-formed convolutional layer's output tensor always has the declared
/// `filters x side x side` shape, and that side obeys the stride, padding
/// and kernel formula. Together with `finish_forward`'s contract, which
/// rebuilds the output in exactly this shape, this pins the forward pass's
/// output shape for every valid configuration.
pub proof fn lemma_conv_output_shape(l: ConvolutionalLayer)
    requires
        l.wf(),
    ensures
        l.output_size as int == (l.input_size as int + 2 * l.padding as int
            - l.kernel_size as int) / l.stride as int + 1,
        dims_ok(&l.output, l.num_filters as int, l.output_size as int, l.output_size as int),
{
}

/// A single-filter, single-channel convolution with a one-by-one kernel, no
/// padding and unit stride degenerates to a pointwise map: the accumulation
/// plan of every output cell holds exactly one operand pair, the kernel's
/// only weight against the matching input cell. Folding such a plan with a
/// unit weight and zero bias therefore copies the input.
pub proof fn lemma_unit_kernel_plan(
    plan: Vec<Vec<Vec<Vec<(u32, u32)>>>>,
    kernels: &KernelStack,
    input: Tensor,
    isz: int,
)
    requires
        dims_ok(&input, 1, isz, isz),
        kern_dims_ok(kernels, 1, 1, 1),
        plan@.len() == 1,
        plan_chan_ok(plan@[0], kernels, &input, 0, isz, 1, 1, 1, 0, isz),
    ensures
        forall|y: int, x: int| #![trigger plan@[0]@[y]@[x]]
            0 <= y < isz && 0 <= x < isz
                ==> plan@[0]@[y]@[x]@ =~= seq![(kern_at(kernels, 0, 0, 0, 0), at(&input, 0, y, x))],
{
    assert forall|y: int, x: int|
        0 <= y < isz && 0 <= x < isz implies
        plan@[0]@[y]@[x]@ =~= seq![(kern_at(kernels, 0, 0, 0, 0), at(&input, 0, y, x))] by {
        assert(plan_row_ok(plan@[0]@[y], kernels, &input, 0, isz, 1, 1, 1, 0, y, isz));
        assert(cell_terms_ok(plan@[0]@[y]@[x]@, kernels, &input, 0, isz, 1, 1, 0, y * 1, x * 1));
        let ts = plan@[0]@[y]@[x]@;
        assert(ts.len() == 1 * 1 * 1);
        assert(flat_idx(0, 0, 0, 1, 1) == 0);
        assert(ts[flat_idx(0, 0, 0, 1, 1)] == (
            kern_at(kernels, 0, 0, 0, 0),
            pad_at(&input, 0, isz, 0, y * 1 + 0, x * 1 + 0),
        ));
        assert(pad_at(&input, 0, isz, 0, y, x) == at(&input, 0, y, x));
    }
}

/// With no padding, the padded input is the input itself, cell for cell.
pub proof fn lemma_no_padding(input: Tensor, isz: int, d: int, h: int, w: int)
    requires
        0 <= h < isz,
        0 <= w < isz,
    ensures
        pad_at(&input, 0, isz, d, h, w) == at(&input, d, h, w),
{
}

/// Flattening and row-major unflattening are inverse index maps: a tensor
/// sent through `flatten` and back through `unflatten` at the same shape
/// agrees with the original on every cell.
pub proof fn lemma_flatten_unflatten_roundtrip(t: Tensor, flat: Vec<u32>, back: Tensor, d: int, h: int, w: int)
    requires
        forall|i: int, j: int, k: int| #![trigger at(&t, i, j, k)]
            0 <= i < d && 0 <= j < h && 0 <= k < w
                ==> flat@[flat_idx(i, j, k, h, w)] == at(&t, i, j, k),
        forall|i: int, j: int, k: int| #![trigger at(&back, i, j, k)]
            0 <= i < d && 0 <= j < h && 0 <= k < w
                ==> at(&back, i, j, k) == flat@[flat_idx(i, j, k, h, w)],
    ensures
        forall|i: int, j: int, k: int| #![trigger at(&back, i, j, k)]
            0 <= i < d && 0 <= j < h && 0 <= k < w ==> at(&back, i, j, k) == at(&t, i, j, k),
{
    assert forall|i: int, j: int, k: int|
        0 <= i < d && 0 <= j < h && 0 <= k < w implies at(&back, i, j, k) == at(&t, i, j, k) by {
        assert(at(&back, i, j, k) == flat@[flat_idx(i, j, k, h, w)]);
        assert(flat@[flat_idx(i, j, k, h, w)] == at(&t, i, j, k));
    }
}

/// Pooling is deterministic: two forward passes of layers in the same state
/// over the same input agree on every output cell and every recorded
/// coordinate. Nothing about the pass depends on anything but the layer and
/// its input.
pub proof fn lemma_pool_forward_deterministic(
    pre: MaxPoolingLayer,
    post1: MaxPoolingLayer,
    post2: MaxPoolingLayer,
    input: Tensor,
    r1: Tensor,
    r2: Tensor,
)
    requires
        pool_forward_rel(pre, post1, input, r1),
        pool_forward_rel(pre, post2, input, r2),
    ensures
        forall|f: int, y: int, x: int| #![trigger at(&r1, f, y, x), at(&r2, f, y, x)]
            0 <= f < pre.input_depth && 0 <= y < pre.output_size && 0 <= x < pre.output_size
                ==> at(&r1, f, y, x) == at(&r2, f, y, x),
        forall|f: int, y: int, x: int|
            #![trigger post1.highest_index@[f]@[y]@[x], post2.highest_index@[f]@[y]@[x]]
            0 <= f < pre.input_depth && 0 <= y < pre.output_size && 0 <= x < pre.output_size
                ==> post1.highest_index@[f]@[y]@[x] == post2.highest_index@[f]@[y]@[x],
{
}

/// Upsampling is deterministic in the same sense.
pub proof fn lemma_up_forward_deterministic(
    pre: UnMaxPoolingLayer,
    post1: UnMaxPoolingLayer,
    post2: UnMaxPoolingLayer,
    input: Tensor,
    r1: Tensor,
    r2: Tensor,
)
    requires
        up_forward_rel(pre, post1, input, r1),
        up_forward_rel(pre, post2, input, r2),
    ensures
        forall|f: int, y: int, x: int| #![trigger at(&r1, f, y, x), at(&r2, f, y, x)]
            0 <= f < pre.input_depth && 0 <= y < pre.output_size && 0 <= x < pre.output_size
                ==> at(&r1, f, y, x) == at(&r2, f, y, x),
{
}

/// Every operand pair of the reconstruction cost of a tensor against itself
/// has equal halves, so each squared difference of the fold is over a value
/// and itself.
pub proof fn lemma_cost_pairs_identical(pairs: Vec<(u32, u32)>, out: Tensor, image: Tensor, s: int)
    requires
        forall|z: int, y: int, x: int| #![trigger at(&image, z, y, x)]
            0 <= z < 3 && 0 <= y < s && 0 <= x < s
                ==> pairs@[flat_idx(z, y, x, s, s)] == (at(&out, z, y, x), at(&image, z, y, x)),
        forall|z: int, y: int, x: int| #![trigger at(&image, z, y, x)]
            0 <= z < 3 && 0 <= y < s && 0 <= x < s ==> at(&out, z, y, x) == at(&image, z, y, x),
    ensures
        forall|z: int, y: int, x: int| #![trigger at(&image, z, y, x)]
            0 <= z < 3 && 0 <= y < s && 0 <= x < s
                ==> pairs@[flat_idx(z, y, x, s, s)].0 == pairs@[flat_idx(z, y, x, s, s)].1,
{
    assert forall|z: int, y: int, x: int|
        0 <= z < 3 && 0 <= y < s && 0 <= x < s implies
        pairs@[flat_idx(z, y, x, s, s)].0 == pairs@[flat_idx(z, y, x, s, s)].1 by {
        assert(pairs@[flat_idx(z, y, x, s, s)] == (at(&out, z, y, x), at(&image, z, y, x)));
        assert(at(&out, z, y, x) == at(&image, z, y, x));
    }
}

} // verus!
