//! Spatial downsampling by windowed maximum. Each output cell is the running
//! maximum of a square receptive field, scanned row by row, with the running
//! value seeded at negative one and advanced only on a strict increase; the
//! coordinate of the winning input cell is recorded beside the value.

use vstd::prelude::*;
use crate::tensor::{Tensor, dims_ok, channel_dims, at, zero_tensor, clone_tensor, lemma_div_le};
use crate::scalar::{NEG_ONE_BITS, spec_gt, gt};
use crate::ModelError;

verus! {

/// Recorded pooling coordinates: one `(row, column)` pair per output cell.
pub type IndexTensor = Vec<Vec<Vec<(usize, usize)>>>;

/// Whether an index tensor holds exactly `d` channels of `h` rows of `w`
/// columns.
pub open spec fn idx_dims_ok(m: &IndexTensor, d: int, h: int, w: int) -> bool {
    &&& m@.len() == d
    &&& forall|a: int| #![trigger m@[a]] 0 <= a < d ==> m@[a]@.len() == h
    &&& forall|a: int, b: int| #![trigger m@[a]@[b]]
        0 <= a < d && 0 <= b < h ==> m@[a]@[b]@.len() == w
}

/// The running state of the window scan for one output cell after the first
/// `yp` full window rows and `xp` further cells of window row `yp`: the
/// running maximum, and the coordinate of the input cell that set it, if any
/// cell was ever strictly greater than the seed of negative one.
pub open spec fn pool_scan(
    input: &Tensor,
    f: int,
    top: int,
    left: int,
    ks: int,
    yp: int,
    xp: int,
) -> (u32, Option<(int, int)>)
    decreases yp, xp,
{
    if yp <= 0 && xp <= 0 {
        (NEG_ONE_BITS, None)
    } else if xp <= 0 {
        pool_scan(input, f, top, left, ks, yp - 1, ks)
    } else {
        let prev = pool_scan(input, f, top, left, ks, yp, xp - 1);
        let v = at(input, f, top + yp, left + (xp - 1));
        if spec_gt(v, prev.0) {
            (v, Some((top + yp, left + (xp - 1))))
        } else {
            prev
        }
    }
}

/// The completed scan of the `ks x ks` window whose top-left corner is
/// `(top, left)` in channel `f`.
pub open spec fn pool_cell(input: &Tensor, f: int, top: int, left: int, ks: int) -> (
    u32,
    Option<(int, int)>,
) {
    pool_scan(input, f, top, left, ks, ks, 0)
}

/// Whether an output row holds the window maxima of output row `y`.
pub open spec fn out_row_ok(
    row: Vec<u32>,
    input: &Tensor,
    f: int,
    y: int,
    stride: int,
    ks: int,
    os: int,
) -> bool {
    &&& row@.len() == os
    &&& forall|x: int| #![trigger row@[x]]
        0 <= x < os ==> row@[x] == pool_cell(input, f, y * stride, x * stride, ks).0
}

/// Whether an output channel holds the window maxima of channel `f`.
pub open spec fn out_chan_ok(
    ch: Vec<Vec<u32>>,
    input: &Tensor,
    f: int,
    stride: int,
    ks: int,
    os: int,
) -> bool {
    &&& ch@.len() == os
    &&& forall|y: int| #![trigger ch@[y]] 0 <= y < os ==> out_row_ok(ch@[y], input, f, y, stride, ks, os)
}

/// Whether a coordinate row records the winners of output row `y`, keeping
/// the previously stored pair wherever no cell beat the seed.
pub open spec fn hi_row_ok(
    row: Vec<(usize, usize)>,
    prev: Vec<(usize, usize)>,
    input: &Tensor,
    f: int,
    y: int,
    stride: int,
    ks: int,
    os: int,
) -> bool {
    &&& row@.len() == os
    &&& forall|x: int| #![trigger row@[x]]
        0 <= x < os ==> match pool_cell(input, f, y * stride, x * stride, ks).1 {
            Some(c) => row@[x].0 == c.0 && row@[x].1 == c.1,
            None => row@[x] == prev@[x],
        }
}

/// Whether a coordinate channel records the winners of channel `f`.
pub open spec fn hi_chan_ok(
    ch: Vec<Vec<(usize, usize)>>,
    prev: Vec<Vec<(usize, usize)>>,
    input: &Tensor,
    f: int,
    stride: int,
    ks: int,
    os: int,
) -> bool {
    &&& ch@.len() == os
    &&& forall|y: int| #![trigger ch@[y]]
        0 <= y < os ==> hi_row_ok(ch@[y], prev@[y], input, f, y, stride, ks, os)
}

/// An output row at `y` keeps its receptive field inside the input.
proof fn lemma_window_bound(y: int, os: int, stride: int, ks: int, n: int)
    requires
        0 <= y < os,
        1 <= stride,
        (os - 1) * stride + ks <= n,
    ensures
        y * stride + ks <= n,
{
    assert(y * stride + ks <= n) by (nonlinear_arith)
        requires
            0 <= y < os,
            1 <= stride,
            (os - 1) * stride + ks <= n,
    ;
}


/// How one forward pass relates the layer after the call (`post`) and its
/// returned tensor `r` to the layer before the call (`pre`) and its input.
pub open spec fn pool_forward_rel(
    pre: MaxPoolingLayer,
    post: MaxPoolingLayer,
    input: Tensor,
    r: Tensor,
) -> bool {
    &&& post.wf()
    &&& post.input_size == pre.input_size
    &&& post.input_depth == pre.input_depth
    &&& post.kernel_size == pre.kernel_size
    &&& post.output_size == pre.output_size
    &&& post.stride == pre.stride
    &&& dims_ok(&r, pre.input_depth as int, pre.output_size as int, pre.output_size as int)
    &&& forall|f: int, y: int, x: int| #![trigger at(&r, f, y, x)]
        0 <= f < pre.input_depth && 0 <= y < pre.output_size && 0 <= x < pre.output_size
            ==> at(&r, f, y, x) == pool_cell(
                &input, f, y * pre.stride, x * pre.stride, pre.kernel_size as int).0
    &&& forall|f: int, y: int, x: int| #![trigger at(&post.output, f, y, x)]
        0 <= f < pre.input_depth && 0 <= y < pre.output_size && 0 <= x < pre.output_size
            ==> at(&post.output, f, y, x) == pool_cell(
                &input, f, y * pre.stride, x * pre.stride, pre.kernel_size as int).0
    &&& forall|f: int, y: int, x: int| #![trigger post.highest_index@[f]@[y]@[x]]
        0 <= f < pre.input_depth && 0 <= y < pre.output_size && 0 <= x < pre.output_size
            ==> match pool_cell(
                &input, f, y * pre.stride, x * pre.stride, pre.kernel_size as int).1 {
                Some(c) => post.highest_index@[f]@[y]@[x].0 == c.0
                    && post.highest_index@[f]@[y]@[x].1 == c.1,
                None => post.highest_index@[f]@[y]@[x] == pre.highest_index@[f]@[y]@[x],
            }
}

/// The pooling layer.
pub struct MaxPoolingLayer {
    pub input_size: usize,
    pub input_depth: usize,
    pub kernel_size: usize,
    pub output_size: usize,
    pub stride: usize,
    pub output: Tensor,
    pub highest_index: IndexTensor,
}

impl MaxPoolingLayer {
    /// The declared shapes fit together: every receptive field lies inside
    /// the input.
    pub open spec fn shape_ok(is_: int, ks: int, os: int, stride: int) -> bool {
        &&& 1 <= stride
        &&& 1 <= ks
        &&& ks <= is_
        &&& (os - 1) * stride + ks <= is_
    }

    /// Shape invariant: the shapes fit together and both buffers hold the
    /// declared output shape.
    pub open spec fn wf(&self) -> bool {
        &&& Self::shape_ok(
            self.input_size as int,
            self.kernel_size as int,
            self.output_size as int,
            self.stride as int,
        )
        &&& dims_ok(
            &self.output,
            self.input_depth as int,
            self.output_size as int,
            self.output_size as int,
        )
        &&& idx_dims_ok(
            &self.highest_index,
            self.input_depth as int,
            self.output_size as int,
            self.output_size as int,
        )
    }

    /// Builds the layer from a persisted parameter set, rejecting one whose
    /// receptive fields would leave the input.
    pub fn new(
        input_size: usize,
        input_depth: usize,
        kernel_size: usize,
        output_size: usize,
        stride: usize,
    ) -> (r: Result<MaxPoolingLayer, ModelError>)
        ensures
            match r {
                Ok(l) => {
                    &&& Self::shape_ok(
                        input_size as int,
                        kernel_size as int,
                        output_size as int,
                        stride as int,
                    )
                    &&& l.wf()
                    &&& l.input_size == input_size
                    &&& l.input_depth == input_depth
                    &&& l.kernel_size == kernel_size
                    &&& l.output_size == output_size
                    &&& l.stride == stride
                },
                Err(e) => {
                    &&& e == ModelError::BadMaxPoolingShape
                    &&& !Self::shape_ok(
                        input_size as int,
                        kernel_size as int,
                        output_size as int,
                        stride as int,
                    )
                },
            },
    {
        if stride >= 1 && kernel_size >= 1 && kernel_size <= input_size {
            let fits: bool = if output_size == 0 {
                true
            } else {
                let q: usize = (input_size - kernel_size) / stride;
                proof {
                    lemma_div_le(
                        output_size as int - 1,
                        input_size as int - kernel_size as int,
                        stride as int,
                    );
                }
                output_size - 1 <= q
            };
            if fits {
                return Ok(
                    MaxPoolingLayer {
                        input_size,
                        input_depth,
                        kernel_size,
                        output_size,
                        stride,
                        output: zero_tensor(input_depth, output_size, output_size),
                        highest_index: zero_index_tensor(input_depth, output_size, output_size),
                    },
                );
            }
        }
        Err(ModelError::BadMaxPoolingShape)
    }

    /// Scans each receptive field and stores its maximum and the coordinate
    /// of the first input cell that reached it; where no cell exceeds the
    /// seed of negative one, the stored coordinate is left as it was.
    pub fn forward_propagate(&mut self, input: Tensor) -> (r: Tensor)
        requires
            old(self).wf(),
            dims_ok(
                &input,
                old(self).input_depth as int,
                old(self).input_size as int,
                old(self).input_size as int,
            ),
        ensures
            pool_forward_rel(*old(self), *final(self), input, r),
    {
        let d: usize = self.input_depth;
        let isz: usize = self.input_size;
        let ks: usize = self.kernel_size;
        let os: usize = self.output_size;
        let stride: usize = self.stride;
        let mut out: Tensor = Vec::new();
        let mut hi: IndexTensor = Vec::new();
        for f in 0..d
            invariant
                MaxPoolingLayer::shape_ok(isz as int, ks as int, os as int, stride as int),
                dims_ok(&input, d as int, isz as int, isz as int),
                idx_dims_ok(&self.highest_index, d as int, os as int, os as int),
                out@.len() == f,
                hi@.len() == f,
                forall|a: int| #![trigger out@[a]]
                    0 <= a < f
                        ==> out_chan_ok(out@[a], &input, a, stride as int, ks as int, os as int),
                forall|a: int| #![trigger hi@[a]]
                    0 <= a < f
                        ==> hi_chan_ok(
                            hi@[a],
                            self.highest_index@[a],
                            &input,
                            a,
                            stride as int,
                            ks as int,
                            os as int,
                        ),
        {
            let mut och: Vec<Vec<u32>> = Vec::new();
            let mut hch: Vec<Vec<(usize, usize)>> = Vec::new();
            for y in 0..os
                invariant
                    MaxPoolingLayer::shape_ok(isz as int, ks as int, os as int, stride as int),
                    dims_ok(&input, d as int, isz as int, isz as int),
                    idx_dims_ok(&self.highest_index, d as int, os as int, os as int),
                    f < d,
                    och@.len() == y,
                    hch@.len() == y,
                    forall|b: int| #![trigger och@[b]]
                        0 <= b < y
                            ==> out_row_ok(
                                och@[b], &input, f as int, b, stride as int, ks as int, os as int),
                    forall|b: int| #![trigger hch@[b]]
                        0 <= b < y
                            ==> hi_row_ok(
                                hch@[b],
                                self.highest_index@[f as int]@[b],
                                &input,
                                f as int,
                                b,
                                stride as int,
                                ks as int,
                                os as int,
                            ),
            {
                let mut orow: Vec<u32> = Vec::new();
                let mut hrow: Vec<(usize, usize)> = Vec::new();
                proof {
                    lemma_window_bound(y as int, os as int, stride as int, ks as int, isz as int);
                }
                let top: usize = y * stride;
                for x in 0..os
                    invariant
                        MaxPoolingLayer::shape_ok(isz as int, ks as int, os as int, stride as int),
                        dims_ok(&input, d as int, isz as int, isz as int),
                        idx_dims_ok(&self.highest_index, d as int, os as int, os as int),
                        f < d,
                        y < os,
                        top == y * stride,
                        top + ks <= isz,
                        orow@.len() == x,
                        hrow@.len() == x,
                        forall|c: int| #![trigger orow@[c]]
                            0 <= c < x
                                ==> orow@[c] == pool_cell(
                                    &input, f as int, y * stride as int, c * stride as int,
                                    ks as int).0,
                        forall|c: int| #![trigger hrow@[c]]
                            0 <= c < x
                                ==> match pool_cell(
                                    &input, f as int, y * stride as int, c * stride as int,
                                    ks as int).1 {
                                    Some(w) => hrow@[c].0 == w.0 && hrow@[c].1 == w.1,
                                    None => hrow@[c]
                                        == self.highest_index@[f as int]@[y as int]@[c],
                                },
                {
                    proof {
                        lemma_window_bound(
                            x as int, os as int, stride as int, ks as int, isz as int);
                    }
                    let left: usize = x * stride;
                    let mut cur: u32 = NEG_ONE_BITS;
                    let mut has: bool = false;
                    let mut best_y: usize = 0;
                    let mut best_x: usize = 0;
                    for y_p in 0..ks
                        invariant
                            dims_ok(&input, d as int, isz as int, isz as int),
                            f < d,
                            top + ks <= isz,
                            left + ks <= isz,
                            pool_scan(
                                &input, f as int, top as int, left as int, ks as int,
                                y_p as int, 0)
                                == (cur, if has {
                                    Some((best_y as int, best_x as int))
                                } else {
                                    None::<(int, int)>
                                }),
                    {
                        for x_p in 0..ks
                            invariant
                                dims_ok(&input, d as int, isz as int, isz as int),
                                f < d,
                                y_p < ks,
                                top + ks <= isz,
                                left + ks <= isz,
                                pool_scan(
                                    &input, f as int, top as int, left as int, ks as int,
                                    y_p as int, x_p as int)
                                    == (cur, if has {
                                        Some((best_y as int, best_x as int))
                                    } else {
                                        None::<(int, int)>
                                    }),
                        {
                            proof {
                                assert(channel_dims(input@[f as int], isz as int, isz as int));
                            }
                            let val: u32 = input[f][top + y_p][left + x_p];
                            if gt(val, cur) {
                                cur = val;
                                best_y = top + y_p;
                                best_x = left + x_p;
                                has = true;
                            }
                        }
                    }
                    orow.push(cur);
                    if has {
                        hrow.push((best_y, best_x));
                    } else {
                        proof {
                            assert(self.highest_index@[f as int]@[y as int]@.len() == os);
                        }
                        hrow.push(self.highest_index[f][y][x]);
                    }
                }
                och.push(orow);
                hch.push(hrow);
            }
            out.push(och);
            hi.push(hch);
        }
        let out_copy = clone_tensor(&out);
        let ghost old_hi = self.highest_index@;
        self.output = out;
        self.highest_index = hi;
        proof {
            let g_d = d as int;
            let g_os = os as int;
            let g_ks = ks as int;
            let g_st = stride as int;
            assert forall|f: int, y: int, x: int|
                0 <= f < g_d && 0 <= y < g_os && 0 <= x < g_os implies
                at(&self.output, f, y, x) == pool_cell(&input, f, y * g_st, x * g_st, g_ks).0 by {
                assert(out_chan_ok(self.output@[f], &input, f, g_st, g_ks, g_os));
                assert(out_row_ok(self.output@[f]@[y], &input, f, y, g_st, g_ks, g_os));
            }
            assert forall|f: int| 0 <= f < g_d implies
                channel_dims(self.output@[f], g_os, g_os) by {
                assert(out_chan_ok(self.output@[f], &input, f, g_st, g_ks, g_os));
                assert forall|y: int| 0 <= y < g_os implies
                    self.output@[f]@[y]@.len() == g_os by {
                    assert(out_row_ok(self.output@[f]@[y], &input, f, y, g_st, g_ks, g_os));
                }
            }
            assert forall|f: int, y: int, x: int| #![trigger self.highest_index@[f]@[y]@[x]]
                0 <= f < g_d && 0 <= y < g_os && 0 <= x < g_os implies
                match pool_cell(&input, f, y * g_st, x * g_st, g_ks).1 {
                    Some(c) => self.highest_index@[f]@[y]@[x].0 == c.0
                        && self.highest_index@[f]@[y]@[x].1 == c.1,
                    None => self.highest_index@[f]@[y]@[x] == old_hi[f]@[y]@[x],
                } by {
                assert(hi_chan_ok(
                    self.highest_index@[f], old_hi[f], &input, f, g_st, g_ks, g_os));
                assert(hi_row_ok(
                    self.highest_index@[f]@[y], old_hi[f]@[y], &input, f, y, g_st, g_ks, g_os));
            }
            assert forall|f: int| 0 <= f < g_d implies
                self.highest_index@[f]@.len() == g_os by {
                assert(hi_chan_ok(
                    self.highest_index@[f], old_hi[f], &input, f, g_st, g_ks, g_os));
            }
            assert forall|f: int, y: int| 0 <= f < g_d && 0 <= y < g_os implies
                self.highest_index@[f]@[y]@.len() == g_os by {
                assert(hi_chan_ok(
                    self.highest_index@[f], old_hi[f], &input, f, g_st, g_ks, g_os));
                assert(hi_row_ok(
                    self.highest_index@[f]@[y], old_hi[f]@[y], &input, f, y, g_st, g_ks, g_os));
            }
            assert forall|f: int, y: int, x: int|
                0 <= f < g_d && 0 <= y < g_os && 0 <= x < g_os implies
                at(&out_copy, f, y, x) == pool_cell(&input, f, y * g_st, x * g_st, g_ks).0 by {
                assert(at(&out_copy, f, y, x) == at(&self.output, f, y, x));
                assert(at(&self.output, f, y, x)
                    == pool_cell(&input, f, y * g_st, x * g_st, g_ks).0);
            }
            assert forall|f: int| 0 <= f < g_d implies
                channel_dims(out_copy@[f], g_os, g_os) by {
                assert(channel_dims(self.output@[f], g_os, g_os));
                assert(out_copy@[f]@.len() == self.output@[f]@.len());
                assert forall|y: int| 0 <= y < g_os implies out_copy@[f]@[y]@.len() == g_os by {
                    assert(out_copy@[f]@[y]@ == self.output@[f]@[y]@);
                }
            }
        }
        out_copy
    }
}

/// Builds a `d x h x w` coordinate tensor holding `(0, 0)` in every cell.
fn zero_index_tensor(d: usize, h: usize, w: usize) -> (t: IndexTensor)
    ensures
        idx_dims_ok(&t, d as int, h as int, w as int),
{
    let mut t: IndexTensor = Vec::new();
    for i in 0..d
        invariant
            t@.len() == i,
            forall|a: int| #![trigger t@[a]] 0 <= a < i ==> t@[a]@.len() == h,
            forall|a: int, b: int| #![trigger t@[a]@[b]]
                0 <= a < i && 0 <= b < h ==> t@[a]@[b]@.len() == w,
    {
        let mut ch: Vec<Vec<(usize, usize)>> = Vec::new();
        for j in 0..h
            invariant
                ch@.len() == j,
                forall|b: int| #![trigger ch@[b]] 0 <= b < j ==> ch@[b]@.len() == w,
        {
            let mut row: Vec<(usize, usize)> = Vec::new();
            for k in 0..w
                invariant
                    row@.len() == k,
            {
                row.push((0, 0));
            }
            ch.push(row);
        }
        t.push(ch);
    }
    t
}

} // verus!
