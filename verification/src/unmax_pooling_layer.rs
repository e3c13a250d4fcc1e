//! Spatial upsampling by fixed-factor replication: every input cell is
//! copied into a two-by-two block of output cells (nearest-neighbour
//! expansion; the stored pooling coordinates of a paired pooling layer are
//! not consulted).

use vstd::prelude::*;
use crate::tensor::{Tensor, dims_ok, channel_dims, at, zero_tensor, clone_tensor};
use crate::ModelError;

verus! {

/// Whether `row` replicates row `y / 2` of channel `f` of `input` with every
/// column doubled.
pub open spec fn up_row(row: Vec<u32>, input: &Tensor, f: int, y: int, os: int) -> bool {
    &&& row@.len() == os
    &&& forall|x: int| #![trigger row@[x]] 0 <= x < os ==> row@[x] == at(input, f, y / 2, x / 2)
}

/// Whether `ch` upsamples channel `f` of `input` by a factor of two.
pub open spec fn up_channel(ch: Vec<Vec<u32>>, input: &Tensor, f: int, os: int) -> bool {
    &&& ch@.len() == os
    &&& forall|y: int| #![trigger ch@[y]] 0 <= y < os ==> up_row(ch@[y], input, f, y, os)
}


/// How one forward pass relates the layer after the call (`post`) and its
/// returned tensor `r` to the layer before the call (`pre`) and its input.
pub open spec fn up_forward_rel(
    pre: UnMaxPoolingLayer,
    post: UnMaxPoolingLayer,
    input: Tensor,
    r: Tensor,
) -> bool {
    &&& post.wf()
    &&& post.input_size == pre.input_size
    &&& post.input_depth == pre.input_depth
    &&& post.output_size == pre.output_size
    &&& dims_ok(&r, pre.input_depth as int, pre.output_size as int, pre.output_size as int)
    &&& forall|f: int, y: int, x: int| #![trigger at(&r, f, y, x)]
        0 <= f < pre.input_depth && 0 <= y < pre.output_size && 0 <= x < pre.output_size
            ==> at(&r, f, y, x) == at(&input, f, y / 2, x / 2)
    &&& forall|f: int, y: int, x: int| #![trigger at(&post.output, f, y, x)]
        0 <= f < pre.input_depth && 0 <= y < pre.output_size && 0 <= x < pre.output_size
            ==> at(&post.output, f, y, x) == at(&input, f, y / 2, x / 2)
}

/// The upsampling layer.
pub struct UnMaxPoolingLayer {
    pub input_size: usize,
    pub input_depth: usize,
    pub output_size: usize,
    pub output: Tensor,
}

impl UnMaxPoolingLayer {
    /// Shape invariant: the output side is twice the input side, and the
    /// output buffer holds the declared shape.
    pub open spec fn wf(&self) -> bool {
        &&& self.output_size == 2 * self.input_size
        &&& dims_ok(
            &self.output,
            self.input_depth as int,
            self.output_size as int,
            self.output_size as int,
        )
    }

    /// Builds the layer from a persisted parameter set, rejecting one whose
    /// output side is not twice its input side.
    pub fn new(input_size: usize, input_depth: usize, output_size: usize) -> (r: Result<
        UnMaxPoolingLayer,
        ModelError,
    >)
        ensures
            match r {
                Ok(l) => {
                    &&& output_size == 2 * input_size
                    &&& l.wf()
                    &&& l.input_size == input_size
                    &&& l.input_depth == input_depth
                    &&& l.output_size == output_size
                },
                Err(e) => {
                    &&& e == ModelError::BadUnMaxPoolingShape
                    &&& output_size != 2 * input_size
                },
            },
    {
        if input_size <= usize::MAX / 2 && output_size == 2 * input_size {
            Ok(
                UnMaxPoolingLayer {
                    input_size,
                    input_depth,
                    output_size,
                    output: zero_tensor(input_depth, output_size, output_size),
                },
            )
        } else {
            Err(ModelError::BadUnMaxPoolingShape)
        }
    }

    /// Expands each input cell into a two-by-two field of identical values:
    /// output cell `(f, y, x)` holds input cell `(f, y / 2, x / 2)`.
    pub fn forward_propagate(&mut self, input: Tensor) -> (r: Tensor)
        requires
            old(self).wf(),
            dims_ok(
                &input,
                old(self).input_depth as int,
                old(self).input_size as int,
                old(self).input_size as int,
            ),
        ensures
            up_forward_rel(*old(self), *final(self), input, r),
    {
        let d: usize = self.input_depth;
        let isz: usize = self.input_size;
        let os: usize = self.output_size;
        let mut out: Tensor = Vec::new();
        for f in 0..d
            invariant
                os == 2 * isz,
                dims_ok(&input, d as int, isz as int, isz as int),
                out@.len() == f,
                forall|a: int| #![trigger out@[a]]
                    0 <= a < f ==> up_channel(out@[a], &input, a, os as int),
        {
            let mut ch: Vec<Vec<u32>> = Vec::new();
            for y in 0..os
                invariant
                    os == 2 * isz,
                    f < d,
                    dims_ok(&input, d as int, isz as int, isz as int),
                    ch@.len() == y,
                    forall|b: int| #![trigger ch@[b]]
                        0 <= b < y ==> up_row(ch@[b], &input, f as int, b, os as int),
            {
                let mut row: Vec<u32> = Vec::new();
                for x in 0..os
                    invariant
                        os == 2 * isz,
                        f < d,
                        y < os,
                        dims_ok(&input, d as int, isz as int, isz as int),
                        row@.len() == x,
                        forall|c: int| #![trigger row@[c]]
                            0 <= c < x ==> row@[c] == at(&input, f as int, y as int / 2, c / 2),
                {
                    proof {
                        assert(channel_dims(input@[f as int], isz as int, isz as int));
                    }
                    row.push(input[f][y / 2][x / 2]);
                }
                ch.push(row);
            }
            out.push(ch);
        }
        self.output = clone_tensor(&out);
        proof {
            assert forall|f: int, y: int, x: int|
                0 <= f < d && 0 <= y < os && 0 <= x < os implies
                at(&out, f, y, x) == at(&input, f, y / 2, x / 2) by {
                assert(up_channel(out@[f], &input, f, os as int));
                assert(up_row(out@[f]@[y], &input, f, y, os as int));
            }
            assert forall|f: int| 0 <= f < d implies channel_dims(out@[f], os as int, os as int) by {
                assert(up_channel(out@[f], &input, f, os as int));
                assert forall|y: int| 0 <= y < os implies out@[f]@[y]@.len() == os by {
                    assert(up_row(out@[f]@[y], &input, f, y, os as int));
                }
            }
            assert forall|f: int, y: int, x: int|
                0 <= f < d && 0 <= y < os && 0 <= x < os implies
                at(&self.output, f, y, x) == at(&input, f, y / 2, x / 2) by {
                assert(self.output@[f]@[y]@ == out@[f]@[y]@);
                assert(at(&out, f, y, x) == at(&input, f, y / 2, x / 2));
            }
            assert forall|f: int| 0 <= f < d implies
                channel_dims(self.output@[f], os as int, os as int) by {
                assert(channel_dims(out@[f], os as int, os as int));
                assert(self.output@[f]@.len() == out@[f]@.len());
                assert forall|y: int| 0 <= y < os implies self.output@[f]@[y]@.len() == os by {
                    assert(self.output@[f]@[y]@ == out@[f]@[y]@);
                    assert(out@[f]@[y]@.len() == os);
                }
            }
        }
        out
    }
}

} // verus!
