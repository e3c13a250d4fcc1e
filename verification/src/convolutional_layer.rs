//! Stride-and-padding convolution with bias and a pointwise activation.
//!
//! The multiply-accumulate itself runs on encoded scalar values that this
//! crate does not re-derive, so the forward pass is split in two verified
//! halves around it: `forward_terms` lays out, for every output cell, the
//! exact operand pairs of its accumulation (kernel weight and padded input
//! cell, in channel-row-column order, to be folded onto the filter's bias),
//! and `finish_forward` takes the accumulated tensor back, applies the
//! rectifier where the sigmoid flag is clear, and stores the result.

use vstd::prelude::*;
use crate::tensor::{Tensor, dims_ok, channel_dims, at, flat_idx, lemma_flat_idx_bounds,
    zero_tensor, clone_tensor, zero_row, flatten};
use crate::scalar::{ZERO_BITS, spec_relu, relu};
use crate::ModelError;

verus! {

/// A stack of kernels: one `id x ks x ks` tensor per filter.
pub type KernelStack = Vec<Vec<Vec<Vec<u32>>>>;

/// Whether `k` holds `nf` kernels of `id` channels of `ks x ks` weights.
pub open spec fn kern_dims_ok(k: &KernelStack, nf: int, id: int, ks: int) -> bool {
    &&& k@.len() == nf
    &&& forall|f: int| #![trigger k@[f]] 0 <= f < nf ==> dims_ok(&k@[f], id, ks, ks)
}

/// Kernel weight of filter `f`, channel `ci`, position `(ky, kx)`.
pub open spec fn kern_at(k: &KernelStack, f: int, ci: int, ky: int, kx: int) -> u32 {
    k@[f]@[ci]@[ky]@[kx]
}

/// The value of the zero-padded input at `(d, h, w)`: the input cell shifted
/// by the padding inside the core region, zero on the border.
pub open spec fn pad_at(input: &Tensor, p: int, isz: int, d: int, h: int, w: int) -> u32 {
    if p <= h < p + isz && p <= w < p + isz {
        at(input, d, h - p, w - p)
    } else {
        ZERO_BITS
    }
}

/// The activation of the layer: the accumulated value is handed back
/// untouched when the sigmoid flag is set (its pointwise sigmoid is applied
/// by the caller that folded the terms), and rectified otherwise.
pub open spec fn conv_act(sigmoid: bool, v: u32) -> u32 {
    if sigmoid {
        v
    } else {
        spec_relu(v)
    }
}

/// Whether `ts` lists, in flat channel-row-column order, the operand pairs
/// of the output cell whose receptive field starts at `(top, left)`: the
/// kernel weight of filter `f` and the padded input cell under it.
pub open spec fn cell_terms_ok(
    ts: Seq<(u32, u32)>,
    kernels: &KernelStack,
    input: &Tensor,
    p: int,
    isz: int,
    id: int,
    ks: int,
    f: int,
    top: int,
    left: int,
) -> bool {
    &&& ts.len() == id * ks * ks
    &&& forall|ci: int, ky: int, kx: int| #![trigger ts[flat_idx(ci, ky, kx, ks, ks)]]
        0 <= ci < id && 0 <= ky < ks && 0 <= kx < ks
            ==> ts[flat_idx(ci, ky, kx, ks, ks)] == (
                kern_at(kernels, f, ci, ky, kx),
                pad_at(input, p, isz, ci, top + ky, left + kx),
            )
}

/// Whether `row` holds the term lists of output row `y` of filter `f`.
pub open spec fn plan_row_ok(
    row: Vec<Vec<(u32, u32)>>,
    kernels: &KernelStack,
    input: &Tensor,
    p: int,
    isz: int,
    id: int,
    ks: int,
    stride: int,
    f: int,
    y: int,
    os: int,
) -> bool {
    &&& row@.len() == os
    &&& forall|x: int| #![trigger row@[x]]
        0 <= x < os ==> cell_terms_ok(
            row@[x]@, kernels, input, p, isz, id, ks, f, y * stride, x * stride)
}

/// Whether `ch` holds the term lists of every output cell of filter `f`.
pub open spec fn plan_chan_ok(
    ch: Vec<Vec<Vec<(u32, u32)>>>,
    kernels: &KernelStack,
    input: &Tensor,
    p: int,
    isz: int,
    id: int,
    ks: int,
    stride: int,
    f: int,
    os: int,
) -> bool {
    &&& ch@.len() == os
    &&& forall|y: int| #![trigger ch@[y]]
        0 <= y < os ==> plan_row_ok(ch@[y], kernels, input, p, isz, id, ks, stride, f, y, os)
}

/// The output-size formula keeps every receptive field inside the padded
/// input.
proof fn lemma_conv_fit(isz: int, p: int, ks: int, stride: int, os: int)
    requires
        stride >= 1,
        ks >= 1,
        ks <= isz + 2 * p,
        0 <= isz,
        0 <= p,
        os == (isz + 2 * p - ks) / stride + 1,
    ensures
        os >= 1,
        (os - 1) * stride + ks <= isz + 2 * p,
{
    let ps = isz + 2 * p;
    vstd::arithmetic::div_mod::lemma_fundamental_div_mod(ps - ks, stride);
    vstd::arithmetic::div_mod::lemma_remainder_upper(ps - ks, stride);
    vstd::arithmetic::div_mod::lemma_div_pos_is_pos(ps - ks, stride);
    assert((os - 1) * stride + ks <= ps) by (nonlinear_arith)
        requires
            stride >= 1,
            os - 1 == (ps - ks) / stride,
            ps - ks == stride * ((ps - ks) / stride) + (ps - ks) % stride,
            0 <= (ps - ks) % stride < stride,
    ;
}

/// A receptive field starting at an in-range multiple of the stride stays
/// inside the padded input.
proof fn lemma_conv_window(y: int, os: int, stride: int, ks: int, n: int)
    requires
        0 <= y < os,
        1 <= stride,
        (os - 1) * stride + ks <= n,
    ensures
        y * stride + ks <= n,
{
    assert(y * stride + ks <= n) by (nonlinear_arith)
        requires
            0 <= y < os,
            1 <= stride,
            (os - 1) * stride + ks <= n,
    ;
}

/// Whether `row` mirrors row `b` of channel `a` of the padded input.
pub open spec fn pad_row_ok(row: Vec<u32>, input: &Tensor, p: int, isz: int, a: int, b: int, ps: int) -> bool {
    &&& row@.len() == ps
    &&& forall|c: int| #![trigger row@[c]] 0 <= c < ps ==> row@[c] == pad_at(input, p, isz, a, b, c)
}

/// Whether `ch` mirrors channel `a` of the padded input.
pub open spec fn pad_chan_ok(ch: Vec<Vec<u32>>, input: &Tensor, p: int, isz: int, a: int, ps: int) -> bool {
    &&& ch@.len() == ps
    &&& forall|b: int| #![trigger ch@[b]] 0 <= b < ps ==> pad_row_ok(ch@[b], input, p, isz, a, b, ps)
}

/// Pads a `d x isz x isz` tensor with a border of `p` zero cells on both
/// spatial axes.
pub fn pad(input: &Tensor, p: usize, isz: usize, d: usize) -> (r: Tensor)
    requires
        dims_ok(input, d as int, isz as int, isz as int),
        isz + 2 * p <= usize::MAX,
    ensures
        dims_ok(&r, d as int, (isz + 2 * p) as int, (isz + 2 * p) as int),
        forall|a: int, b: int, c: int| #![trigger at(&r, a, b, c)]
            0 <= a < d && 0 <= b < isz + 2 * p && 0 <= c < isz + 2 * p
                ==> at(&r, a, b, c) == pad_at(input, p as int, isz as int, a, b, c),
{
    let ps: usize = isz + 2 * p;
    let mut r: Tensor = Vec::new();
    for a in 0..d
        invariant
            ps == isz + 2 * p,
            dims_ok(input, d as int, isz as int, isz as int),
            r@.len() == a,
            forall|i: int| #![trigger r@[i]]
                0 <= i < a ==> pad_chan_ok(r@[i], input, p as int, isz as int, i, ps as int),
    {
        let mut ch: Vec<Vec<u32>> = Vec::new();
        for b in 0..ps
            invariant
                ps == isz + 2 * p,
                a < d,
                dims_ok(input, d as int, isz as int, isz as int),
                ch@.len() == b,
                forall|j: int| #![trigger ch@[j]]
                    0 <= j < b ==> pad_row_ok(ch@[j], input, p as int, isz as int, a as int, j, ps as int),
        {
            let mut row: Vec<u32> = Vec::new();
            for c in 0..ps
                invariant
                    ps == isz + 2 * p,
                    a < d,
                    b < ps,
                    dims_ok(input, d as int, isz as int, isz as int),
                    row@.len() == c,
                    forall|k: int| #![trigger row@[k]]
                        0 <= k < c ==> row@[k] == pad_at(input, p as int, isz as int, a as int, b as int, k),
            {
                if b >= p && b < p + isz && c >= p && c < p + isz {
                    proof {
                        assert(channel_dims(input@[a as int], isz as int, isz as int));
                    }
                    row.push(input[a][b - p][c - p]);
                } else {
                    row.push(ZERO_BITS);
                }
            }
            ch.push(row);
        }
        r.push(ch);
    }
    proof {
        assert forall|i: int| 0 <= i < d implies channel_dims(r@[i], ps as int, ps as int) by {
            assert(pad_chan_ok(r@[i], input, p as int, isz as int, i, ps as int));
            assert forall|j: int| 0 <= j < ps implies r@[i]@[j]@.len() == ps by {
                assert(pad_row_ok(r@[i]@[j], input, p as int, isz as int, i, j, ps as int));
            }
        }
        assert forall|a: int, b: int, c: int|
            0 <= a < d && 0 <= b < ps && 0 <= c < ps implies
            at(&r, a, b, c) == pad_at(input, p as int, isz as int, a, b, c) by {
            assert(pad_chan_ok(r@[a], input, p as int, isz as int, a, ps as int));
            assert(pad_row_ok(r@[a]@[b], input, p as int, isz as int, a, b, ps as int));
        }
    }
    r
}

/// Builds `nf` kernels of `id x ks x ks` zero weights.
fn zero_kernels(nf: usize, id: usize, ks: usize) -> (r: KernelStack)
    ensures
        kern_dims_ok(&r, nf as int, id as int, ks as int),
{
    let mut r: KernelStack = Vec::new();
    for f in 0..nf
        invariant
            r@.len() == f,
            forall|a: int| #![trigger r@[a]]
                0 <= a < f ==> dims_ok(&r@[a], id as int, ks as int, ks as int),
    {
        r.push(zero_tensor(id, ks, ks));
    }
    r
}

/// The convolutional layer.
pub struct ConvolutionalLayer {
    pub input_size: usize,
    pub input_depth: usize,
    pub num_filters: usize,
    pub kernel_size: usize,
    pub output_size: usize,
    pub stride: usize,
    pub padding: usize,
    pub biases: Vec<u32>,
    pub bias_changes: Vec<u32>,
    pub kernels: KernelStack,
    pub kernel_changes: KernelStack,
    pub sigmoid: bool,
    pub input: Tensor,
    pub output: Tensor,
}

impl ConvolutionalLayer {
    /// The declared parameter shapes fit together; in particular the output
    /// side obeys `(input + 2 * padding - kernel) / stride + 1`.
    pub open spec fn shape_ok(
        isz: int,
        id: int,
        nf: int,
        ks: int,
        os: int,
        stride: int,
        p: int,
        biases: Seq<u32>,
        kernels: &KernelStack,
    ) -> bool {
        &&& 1 <= stride
        &&& 1 <= ks
        &&& isz + 2 * p <= usize::MAX
        &&& ks <= isz + 2 * p
        &&& os == (isz + 2 * p - ks) / stride + 1
        &&& biases.len() == nf
        &&& kern_dims_ok(kernels, nf, id, ks)
    }

    /// Shape invariant: the parameters fit together and the buffers hold the
    /// declared shapes.
    pub open spec fn wf(&self) -> bool {
        &&& Self::shape_ok(
            self.input_size as int,
            self.input_depth as int,
            self.num_filters as int,
            self.kernel_size as int,
            self.output_size as int,
            self.stride as int,
            self.padding as int,
            self.biases@,
            &self.kernels,
        )
        &&& self.bias_changes@.len() == self.num_filters
        &&& kern_dims_ok(
            &self.kernel_changes,
            self.num_filters as int,
            self.input_depth as int,
            self.kernel_size as int,
        )
        &&& dims_ok(
            &self.input,
            self.input_depth as int,
            self.input_size as int,
            self.input_size as int,
        )
        &&& dims_ok(
            &self.output,
            self.num_filters as int,
            self.output_size as int,
            self.output_size as int,
        )
    }

    /// Builds the layer from a persisted parameter set, rejecting one whose
    /// shapes are inconsistent.
    pub fn new(
        input_size: usize,
        input_depth: usize,
        num_filters: usize,
        kernel_size: usize,
        output_size: usize,
        stride: usize,
        padding: usize,
        biases: Vec<u32>,
        kernels: KernelStack,
        sigmoid: bool,
    ) -> (r: Result<ConvolutionalLayer, ModelError>)
        ensures
            match r {
                Ok(l) => {
                    &&& Self::shape_ok(
                        input_size as int,
                        input_depth as int,
                        num_filters as int,
                        kernel_size as int,
                        output_size as int,
                        stride as int,
                        padding as int,
                        biases@,
                        &kernels,
                    )
                    &&& l.wf()
                    &&& l.input_size == input_size
                    &&& l.input_depth == input_depth
                    &&& l.num_filters == num_filters
                    &&& l.kernel_size == kernel_size
                    &&& l.output_size == output_size
                    &&& l.stride == stride
                    &&& l.padding == padding
                    &&& l.biases == biases
                    &&& l.kernels == kernels
                    &&& l.sigmoid == sigmoid
                },
                Err(e) => {
                    &&& e == ModelError::BadConvolutionalShape
                    &&& !Self::shape_ok(
                        input_size as int,
                        input_depth as int,
                        num_filters as int,
                        kernel_size as int,
                        output_size as int,
                        stride as int,
                        padding as int,
                        biases@,
                        &kernels,
                    )
                },
            },
    {
        if stride < 1 || kernel_size < 1 {
            return Err(ModelError::BadConvolutionalShape);
        }
        if padding > usize::MAX / 2 || input_size > usize::MAX - 2 * padding {
            return Err(ModelError::BadConvolutionalShape);
        }
        let ps: usize = input_size + 2 * padding;
        if kernel_size > ps {
            return Err(ModelError::BadConvolutionalShape);
        }
        if output_size != (ps - kernel_size) / stride + 1 {
            return Err(ModelError::BadConvolutionalShape);
        }
        if biases.len() != num_filters {
            return Err(ModelError::BadConvolutionalShape);
        }
        if kernels.len() != num_filters {
            return Err(ModelError::BadConvolutionalShape);
        }
        for f in 0..num_filters
            invariant
                kernels@.len() == num_filters,
                forall|a: int| #![trigger kernels@[a]]
                    0 <= a < f
                        ==> dims_ok(&kernels@[a], input_depth as int, kernel_size as int, kernel_size as int),
        {
            if kernels[f].len() != input_depth {
                return Err(ModelError::BadConvolutionalShape);
            }
            for ci in 0..input_depth
                invariant
                    kernels@.len() == num_filters,
                    f < num_filters,
                    kernels@[f as int]@.len() == input_depth,
                    forall|a: int| #![trigger kernels@[a]]
                        0 <= a < f
                            ==> dims_ok(&kernels@[a], input_depth as int, kernel_size as int, kernel_size as int),
                    forall|b: int| #![trigger kernels@[f as int]@[b]]
                        0 <= b < ci
                            ==> channel_dims(kernels@[f as int]@[b], kernel_size as int, kernel_size as int),
            {
                if kernels[f][ci].len() != kernel_size {
                    return Err(ModelError::BadConvolutionalShape);
                }
                for ky in 0..kernel_size
                    invariant
                        kernels@.len() == num_filters,
                        f < num_filters,
                        ci < input_depth,
                        kernels@[f as int]@.len() == input_depth,
                        kernels@[f as int]@[ci as int]@.len() == kernel_size,
                        forall|a: int| #![trigger kernels@[a]]
                            0 <= a < f
                                ==> dims_ok(&kernels@[a], input_depth as int, kernel_size as int, kernel_size as int),
                        forall|b: int| #![trigger kernels@[f as int]@[b]]
                            0 <= b < ci
                                ==> channel_dims(kernels@[f as int]@[b], kernel_size as int, kernel_size as int),
                        forall|c: int| #![trigger kernels@[f as int]@[ci as int]@[c]]
                            0 <= c < ky
                                ==> kernels@[f as int]@[ci as int]@[c]@.len() == kernel_size,
                {
                    if kernels[f][ci][ky].len() != kernel_size {
                        return Err(ModelError::BadConvolutionalShape);
                    }
                }
            }
        }
        Ok(
            ConvolutionalLayer {
                input_size,
                input_depth,
                num_filters,
                kernel_size,
                output_size,
                stride,
                padding,
                biases,
                bias_changes: zero_row(num_filters),
                kernels,
                kernel_changes: zero_kernels(num_filters, input_depth, kernel_size),
                sigmoid,
                input: zero_tensor(input_depth, input_size, input_size),
                output: zero_tensor(num_filters, output_size, output_size),
            },
        )
    }

    /// Caches the input and lays out the accumulation plan of the forward
    /// pass: for every output cell `(f, y, x)`, the operand pairs of its
    /// convolution, in flat channel-row-column order over the receptive
    /// field that starts at `(y * stride, x * stride)` in the padded input.
    /// The caller folds each list onto `biases[f]` and hands the accumulated
    /// tensor to `finish_forward`.
    pub fn forward_terms(&mut self, input: Tensor) -> (plan: Vec<Vec<Vec<Vec<(u32, u32)>>>>)
        requires
            old(self).wf(),
            dims_ok(
                &input,
                old(self).input_depth as int,
                old(self).input_size as int,
                old(self).input_size as int,
            ),
        ensures
            final(self).wf(),
            final(self).input_size == old(self).input_size,
            final(self).input_depth == old(self).input_depth,
            final(self).num_filters == old(self).num_filters,
            final(self).kernel_size == old(self).kernel_size,
            final(self).output_size == old(self).output_size,
            final(self).stride == old(self).stride,
            final(self).padding == old(self).padding,
            final(self).biases == old(self).biases,
            final(self).kernels == old(self).kernels,
            final(self).sigmoid == old(self).sigmoid,
            final(self).output == old(self).output,
            final(self).input == input,
            plan@.len() == old(self).num_filters,
            forall|f: int| #![trigger plan@[f]]
                0 <= f < old(self).num_filters
                    ==> plan_chan_ok(
                        plan@[f],
                        &old(self).kernels,
                        &input,
                        old(self).padding as int,
                        old(self).input_size as int,
                        old(self).input_depth as int,
                        old(self).kernel_size as int,
                        old(self).stride as int,
                        f,
                        old(self).output_size as int,
                    ),
    {
        let isz: usize = self.input_size;
        let id: usize = self.input_depth;
        let nf: usize = self.num_filters;
        let ks: usize = self.kernel_size;
        let os: usize = self.output_size;
        let stride: usize = self.stride;
        let p: usize = self.padding;
        proof {
            lemma_conv_fit(isz as int, p as int, ks as int, stride as int, os as int);
        }
        let ps: usize = isz + 2 * p;
        let padded: Tensor = pad(&input, p, isz, id);
        let mut plan: Vec<Vec<Vec<Vec<(u32, u32)>>>> = Vec::new();
        for f in 0..nf
            invariant
                ps == isz + 2 * p,
                (os - 1) * (stride as int) + ks <= ps,
                stride >= 1,
                dims_ok(&input, id as int, isz as int, isz as int),
                dims_ok(&padded, id as int, ps as int, ps as int),
                forall|a: int, b: int, c: int| #![trigger at(&padded, a, b, c)]
                    0 <= a < id && 0 <= b < ps && 0 <= c < ps
                        ==> at(&padded, a, b, c) == pad_at(&input, p as int, isz as int, a, b, c),
                kern_dims_ok(&self.kernels, nf as int, id as int, ks as int),
                plan@.len() == f,
                forall|a: int| #![trigger plan@[a]]
                    0 <= a < f
                        ==> plan_chan_ok(
                            plan@[a], &self.kernels, &input, p as int, isz as int, id as int,
                            ks as int, stride as int, a, os as int),
        {
            proof {
                assert(dims_ok(&self.kernels@[f as int], id as int, ks as int, ks as int));
            }
            let kflat: Vec<u32> = flatten(&self.kernels[f], id, ks, ks);
            let mut ch: Vec<Vec<Vec<(u32, u32)>>> = Vec::new();
            for y in 0..os
                invariant
                    ps == isz + 2 * p,
                    (os - 1) * (stride as int) + ks <= ps,
                    stride >= 1,
                    f < nf,
                    dims_ok(&input, id as int, isz as int, isz as int),
                    dims_ok(&padded, id as int, ps as int, ps as int),
                    forall|a: int, b: int, c: int| #![trigger at(&padded, a, b, c)]
                        0 <= a < id && 0 <= b < ps && 0 <= c < ps
                            ==> at(&padded, a, b, c) == pad_at(&input, p as int, isz as int, a, b, c),
                    kern_dims_ok(&self.kernels, nf as int, id as int, ks as int),
                    kflat@.len() == (id as int) * (ks as int) * (ks as int),
                    forall|ci: int, ky: int, kx: int| #![trigger at(&self.kernels@[f as int], ci, ky, kx)]
                        0 <= ci < id && 0 <= ky < ks && 0 <= kx < ks
                            ==> kflat@[flat_idx(ci, ky, kx, ks as int, ks as int)]
                                == at(&self.kernels@[f as int], ci, ky, kx),
                    ch@.len() == y,
                    forall|b: int| #![trigger ch@[b]]
                        0 <= b < y
                            ==> plan_row_ok(
                                ch@[b], &self.kernels, &input, p as int, isz as int, id as int,
                                ks as int, stride as int, f as int, b, os as int),
            {
                proof {
                    lemma_conv_window(y as int, os as int, stride as int, ks as int, ps as int);
                }
                let top: usize = y * stride;
                let mut rowp: Vec<Vec<(u32, u32)>> = Vec::new();
                for x in 0..os
                    invariant
                        ps == isz + 2 * p,
                        (os - 1) * (stride as int) + ks <= ps,
                        stride >= 1,
                        f < nf,
                        y < os,
                        top == y * stride,
                        top + ks <= ps,
                        dims_ok(&input, id as int, isz as int, isz as int),
                        dims_ok(&padded, id as int, ps as int, ps as int),
                        forall|a: int, b: int, c: int| #![trigger at(&padded, a, b, c)]
                            0 <= a < id && 0 <= b < ps && 0 <= c < ps
                                ==> at(&padded, a, b, c)
                                    == pad_at(&input, p as int, isz as int, a, b, c),
                        kern_dims_ok(&self.kernels, nf as int, id as int, ks as int),
                        kflat@.len() == (id as int) * (ks as int) * (ks as int),
                        forall|ci: int, ky: int, kx: int| #![trigger at(&self.kernels@[f as int], ci, ky, kx)]
                            0 <= ci < id && 0 <= ky < ks && 0 <= kx < ks
                                ==> kflat@[flat_idx(ci, ky, kx, ks as int, ks as int)]
                                    == at(&self.kernels@[f as int], ci, ky, kx),
                        rowp@.len() == x,
                        forall|c: int| #![trigger rowp@[c]]
                            0 <= c < x
                                ==> cell_terms_ok(
                                    rowp@[c]@, &self.kernels, &input, p as int, isz as int,
                                    id as int, ks as int, f as int, y * stride as int,
                                    c * stride as int),
                {
                    proof {
                        lemma_conv_window(x as int, os as int, stride as int, ks as int, ps as int);
                    }
                    let left: usize = x * stride;
                    let mut wnd: Tensor = Vec::new();
                    for ci in 0..id
                        invariant
                            f < nf,
                            top + ks <= ps,
                            left + ks <= ps,
                            dims_ok(&padded, id as int, ps as int, ps as int),
                            wnd@.len() == ci,
                            forall|a: int| #![trigger wnd@[a]]
                                0 <= a < ci ==> wnd_chan_ok(
                                    wnd@[a], &padded, a, top as int, left as int, ks as int),
                    {
                        let mut wch: Vec<Vec<u32>> = Vec::new();
                        for ky in 0..ks
                            invariant
                                f < nf,
                                ci < id,
                                top + ks <= ps,
                                left + ks <= ps,
                                dims_ok(&padded, id as int, ps as int, ps as int),
                                wch@.len() == ky,
                                forall|b: int| #![trigger wch@[b]]
                                    0 <= b < ky ==> wnd_row_ok(
                                        wch@[b], &padded, ci as int, top as int, left as int,
                                        b, ks as int),
                        {
                            let mut wrow: Vec<u32> = Vec::new();
                            for kx in 0..ks
                                invariant
                                    f < nf,
                                    ci < id,
                                    ky < ks,
                                    top + ks <= ps,
                                    left + ks <= ps,
                                    dims_ok(&padded, id as int, ps as int, ps as int),
                                    wrow@.len() == kx,
                                    forall|c: int| #![trigger wrow@[c]]
                                        0 <= c < kx
                                            ==> wrow@[c] == at(
                                                &padded, ci as int, top + ky, left + c),
                            {
                                proof {
                                    assert(channel_dims(padded@[ci as int], ps as int, ps as int));
                                }
                                wrow.push(padded[ci][top + ky][left + kx]);
                            }
                            wch.push(wrow);
                        }
                        wnd.push(wch);
                    }
                    proof {
                        assert forall|a: int| 0 <= a < id implies
                            channel_dims(wnd@[a], ks as int, ks as int) by {
                            assert(wnd_chan_ok(wnd@[a], &padded, a, top as int, left as int, ks as int));
                            assert forall|b: int| 0 <= b < ks implies wnd@[a]@[b]@.len() == ks by {
                                assert(wnd_row_ok(wnd@[a]@[b], &padded, a, top as int, left as int, b, ks as int));
                            }
                        }
                    }
                    let wflat: Vec<u32> = flatten(&wnd, id, ks, ks);
                    let mut ts: Vec<(u32, u32)> = Vec::new();
                    let tlen: usize = kflat.len();
                    for m in 0..tlen
                        invariant
                            tlen == kflat@.len(),
                            wflat@.len() == kflat@.len(),
                            ts@.len() == m,
                            forall|c: int| #![trigger ts@[c]]
                                0 <= c < m ==> ts@[c] == (kflat@[c], wflat@[c]),
                    {
                        ts.push((kflat[m], wflat[m]));
                    }
                    proof {
                        assert forall|ci: int, ky: int, kx: int|
                            0 <= ci < id && 0 <= ky < ks && 0 <= kx < ks implies
                            ts@[flat_idx(ci, ky, kx, ks as int, ks as int)] == (
                                kern_at(&self.kernels, f as int, ci, ky, kx),
                                pad_at(
                                    &input, p as int, isz as int, ci, y * stride as int + ky,
                                    x * stride as int + kx),
                            ) by {
                            lemma_flat_idx_bounds(ci, ky, kx, id as int, ks as int, ks as int);
                            let m = flat_idx(ci, ky, kx, ks as int, ks as int);
                            assert(ts@[m] == (kflat@[m], wflat@[m]));
                            assert(kflat@[m] == at(&self.kernels@[f as int], ci, ky, kx));
                            assert(wflat@[m] == at(&wnd, ci, ky, kx));
                            assert(wnd_chan_ok(wnd@[ci], &padded, ci, top as int, left as int, ks as int));
                            assert(wnd_row_ok(wnd@[ci]@[ky], &padded, ci, top as int, left as int, ky, ks as int));
                            assert(at(&wnd, ci, ky, kx) == at(&padded, ci, top + ky, left + kx));
                            assert(at(&padded, ci, top + ky, left + kx)
                                == pad_at(&input, p as int, isz as int, ci, top + ky, left + kx));
                        }
                        assert(cell_terms_ok(
                            ts@, &self.kernels, &input, p as int, isz as int, id as int,
                            ks as int, f as int, y * stride as int, x * stride as int));
                    }
                    rowp.push(ts);
                }
                ch.push(rowp);
            }
            plan.push(ch);
        }
        self.input = input;
        plan
    }

    /// Stores the activated output: where the sigmoid flag is clear, the
    /// rectifier of each accumulated cell; where it is set, the cell as the
    /// caller activated it.
    pub fn finish_forward(&mut self, acc: Tensor) -> (r: Tensor)
        requires
            old(self).wf(),
            dims_ok(
                &acc,
                old(self).num_filters as int,
                old(self).output_size as int,
                old(self).output_size as int,
            ),
        ensures
            final(self).wf(),
            final(self).input_size == old(self).input_size,
            final(self).input_depth == old(self).input_depth,
            final(self).num_filters == old(self).num_filters,
            final(self).kernel_size == old(self).kernel_size,
            final(self).output_size == old(self).output_size,
            final(self).stride == old(self).stride,
            final(self).padding == old(self).padding,
            final(self).biases == old(self).biases,
            final(self).kernels == old(self).kernels,
            final(self).sigmoid == old(self).sigmoid,
            final(self).input == old(self).input,
            dims_ok(
                &r,
                old(self).num_filters as int,
                old(self).output_size as int,
                old(self).output_size as int,
            ),
            forall|f: int, y: int, x: int| #![trigger at(&r, f, y, x)]
                0 <= f < old(self).num_filters && 0 <= y < old(self).output_size
                    && 0 <= x < old(self).output_size
                    ==> at(&r, f, y, x) == conv_act(old(self).sigmoid, at(&acc, f, y, x)),
            forall|f: int, y: int, x: int| #![trigger at(&final(self).output, f, y, x)]
                0 <= f < old(self).num_filters && 0 <= y < old(self).output_size
                    && 0 <= x < old(self).output_size
                    ==> at(&final(self).output, f, y, x)
                        == conv_act(old(self).sigmoid, at(&acc, f, y, x)),
    {
        let nf: usize = self.num_filters;
        let os: usize = self.output_size;
        let sig: bool = self.sigmoid;
        let mut out: Tensor = Vec::new();
        for f in 0..nf
            invariant
                dims_ok(&acc, nf as int, os as int, os as int),
                out@.len() == f,
                forall|a: int| #![trigger out@[a]]
                    0 <= a < f ==> act_chan_ok(out@[a], &acc, sig, a, os as int),
        {
            let mut ch: Vec<Vec<u32>> = Vec::new();
            for y in 0..os
                invariant
                    dims_ok(&acc, nf as int, os as int, os as int),
                    f < nf,
                    ch@.len() == y,
                    forall|b: int| #![trigger ch@[b]]
                        0 <= b < y ==> act_row_ok(ch@[b], &acc, sig, f as int, b, os as int),
            {
                let mut row: Vec<u32> = Vec::new();
                for x in 0..os
                    invariant
                        dims_ok(&acc, nf as int, os as int, os as int),
                        f < nf,
                        y < os,
                        row@.len() == x,
                        forall|c: int| #![trigger row@[c]]
                            0 <= c < x
                                ==> row@[c] == conv_act(sig, at(&acc, f as int, y as int, c)),
                {
                    proof {
                        assert(channel_dims(acc@[f as int], os as int, os as int));
                    }
                    let v: u32 = acc[f][y][x];
                    if sig {
                        row.push(v);
                    } else {
                        row.push(relu(v));
                    }
                }
                ch.push(row);
            }
            out.push(ch);
        }
        self.output = clone_tensor(&out);
        proof {
            assert forall|f: int, y: int, x: int|
                0 <= f < nf && 0 <= y < os && 0 <= x < os implies
                at(&out, f, y, x) == conv_act(sig, at(&acc, f, y, x)) by {
                assert(act_chan_ok(out@[f], &acc, sig, f, os as int));
                assert(act_row_ok(out@[f]@[y], &acc, sig, f, y, os as int));
            }
            assert forall|f: int| 0 <= f < nf implies channel_dims(out@[f], os as int, os as int) by {
                assert(act_chan_ok(out@[f], &acc, sig, f, os as int));
                assert forall|y: int| 0 <= y < os implies out@[f]@[y]@.len() == os by {
                    assert(act_row_ok(out@[f]@[y], &acc, sig, f, y, os as int));
                }
            }
            assert forall|f: int, y: int, x: int|
                0 <= f < nf && 0 <= y < os && 0 <= x < os implies
                at(&self.output, f, y, x) == conv_act(sig, at(&acc, f, y, x)) by {
                assert(self.output@[f]@[y]@ == out@[f]@[y]@);
                assert(at(&out, f, y, x) == conv_act(sig, at(&acc, f, y, x)));
            }
            assert forall|f: int| 0 <= f < nf implies
                channel_dims(self.output@[f], os as int, os as int) by {
                assert(channel_dims(out@[f], os as int, os as int));
                assert(self.output@[f]@.len() == out@[f]@.len());
                assert forall|y: int| 0 <= y < os implies self.output@[f]@[y]@.len() == os by {
                    assert(self.output@[f]@[y]@ == out@[f]@[y]@);
                    assert(out@[f]@[y]@.len() == os);
                }
            }
        }
        out
    }
}

/// Whether a window row mirrors the padded input cells under window row
/// `ky` of channel `ci`.
pub open spec fn wnd_row_ok(
    row: Vec<u32>,
    padded: &Tensor,
    ci: int,
    top: int,
    left: int,
    ky: int,
    ks: int,
) -> bool {
    &&& row@.len() == ks
    &&& forall|c: int| #![trigger row@[c]]
        0 <= c < ks ==> row@[c] == at(padded, ci, top + ky, left + c)
}

/// Whether a window channel mirrors the receptive field of channel `ci`.
pub open spec fn wnd_chan_ok(
    ch: Vec<Vec<u32>>,
    padded: &Tensor,
    ci: int,
    top: int,
    left: int,
    ks: int,
) -> bool {
    &&& ch@.len() == ks
    &&& forall|b: int| #![trigger ch@[b]]
        0 <= b < ks ==> wnd_row_ok(ch@[b], padded, ci, top, left, b, ks)
}

/// Whether an activated row holds the activation of row `y` of channel `f`
/// of the accumulated tensor.
pub open spec fn act_row_ok(row: Vec<u32>, acc: &Tensor, sig: bool, f: int, y: int, os: int) -> bool {
    &&& row@.len() == os
    &&& forall|c: int| #![trigger row@[c]] 0 <= c < os ==> row@[c] == conv_act(sig, at(acc, f, y, c))
}

/// Whether an activated channel holds the activation of channel `f` of the
/// accumulated tensor.
pub open spec fn act_chan_ok(ch: Vec<Vec<u32>>, acc: &Tensor, sig: bool, f: int, os: int) -> bool {
    &&& ch@.len() == os
    &&& forall|b: int| #![trigger ch@[b]] 0 <= b < os ==> act_row_ok(ch@[b], acc, sig, f, b, os)
}

} // verus!
