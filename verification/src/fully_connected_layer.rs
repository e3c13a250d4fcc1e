//! Dense affine transform with rectified-linear activation, flat in and
//! reshaped out.
//!
//! As with the convolutional layer, the multiply-accumulate runs on encoded
//! scalar values outside this crate: `forward_terms` lays out, for every
//! output unit, the exact operand pairs of its weighted sum (input value and
//! weight, in input order, to be folded onto the unit's bias), and
//! `finish_forward` rectifies the accumulated units, stores them, and
//! reshapes them into a `depth x width x width` tensor by row-major
//! unflattening.

use vstd::prelude::*;
use crate::tensor::{Tensor, dims_ok, at, flat_idx, lemma_flat_idx_bounds, lemma_div_le, zero_row,
    unflatten};
use crate::scalar::{spec_relu, relu};
use crate::ModelError;

verus! {

/// Whether `m` holds `rows` rows of `cols` values.
pub open spec fn mat_dims_ok(m: &Vec<Vec<u32>>, rows: int, cols: int) -> bool {
    &&& m@.len() == rows
    &&& forall|i: int| #![trigger m@[i]] 0 <= i < rows ==> m@[i]@.len() == cols
}

/// Whether `ts` lists, in input order, the operand pairs of output unit `j`:
/// each input value paired with its weight towards `j`.
pub open spec fn fcl_cell_ok(ts: Vec<(u32, u32)>, input: Seq<u32>, weights: &Vec<Vec<u32>>, j: int, isz: int) -> bool {
    &&& ts@.len() == isz
    &&& forall|i: int| #![trigger ts@[i]]
        0 <= i < isz ==> ts@[i] == (input[i], weights@[i]@[j])
}

/// Builds a matrix of `rows x cols` zero values.
fn zero_matrix(rows: usize, cols: usize) -> (r: Vec<Vec<u32>>)
    ensures
        mat_dims_ok(&r, rows as int, cols as int),
{
    let mut r: Vec<Vec<u32>> = Vec::new();
    for i in 0..rows
        invariant
            r@.len() == i,
            forall|a: int| #![trigger r@[a]] 0 <= a < i ==> r@[a]@.len() == cols,
    {
        r.push(zero_row(cols));
    }
    r
}

/// The dense layer.
pub struct FullyConnectedLayer {
    pub input_size: usize,
    pub input_width: usize,
    pub input_depth: usize,
    pub output_width: usize,
    pub output_depth: usize,
    pub output_size: usize,
    pub weights: Vec<Vec<u32>>,
    pub weight_changes: Vec<Vec<u32>>,
    pub biases: Vec<u32>,
    pub bias_changes: Vec<u32>,
    pub input: Vec<u32>,
    pub output: Vec<u32>,
}

impl FullyConnectedLayer {
    /// The declared parameter shapes fit together: the flat output length is
    /// `depth * width * width`, the weight matrix maps every input unit to
    /// every output unit, and there is one bias per output unit.
    pub open spec fn shape_ok(
        isz: int,
        ow: int,
        od: int,
        os: int,
        weights: &Vec<Vec<u32>>,
        biases: Seq<u32>,
    ) -> bool {
        &&& os == od * ow * ow
        &&& mat_dims_ok(weights, isz, os)
        &&& biases.len() == os
    }

    /// Shape invariant: the parameters fit together and the buffers hold the
    /// declared lengths.
    pub open spec fn wf(&self) -> bool {
        &&& Self::shape_ok(
            self.input_size as int,
            self.output_width as int,
            self.output_depth as int,
            self.output_size as int,
            &self.weights,
            self.biases@,
        )
        &&& mat_dims_ok(&self.weight_changes, self.input_size as int, self.output_size as int)
        &&& self.bias_changes@.len() == self.output_size
        &&& self.input@.len() == self.input_size
        &&& self.output@.len() == self.output_size
    }

    /// Builds the layer from a persisted parameter set, rejecting one whose
    /// shapes are inconsistent. The input width and depth only document the
    /// shape the flat input is expected to have been flattened from; the
    /// forward pass does not read them.
    pub fn new(
        input_size: usize,
        input_width: usize,
        input_depth: usize,
        output_width: usize,
        output_depth: usize,
        output_size: usize,
        weights: Vec<Vec<u32>>,
        biases: Vec<u32>,
    ) -> (r: Result<FullyConnectedLayer, ModelError>)
        ensures
            match r {
                Ok(l) => {
                    &&& Self::shape_ok(
                        input_size as int,
                        output_width as int,
                        output_depth as int,
                        output_size as int,
                        &weights,
                        biases@,
                    )
                    &&& l.wf()
                    &&& l.input_size == input_size
                    &&& l.input_width == input_width
                    &&& l.input_depth == input_depth
                    &&& l.output_width == output_width
                    &&& l.output_depth == output_depth
                    &&& l.output_size == output_size
                    &&& l.weights == weights
                    &&& l.biases == biases
                },
                Err(e) => {
                    &&& e == ModelError::BadFullyConnectedShape
                    &&& !Self::shape_ok(
                        input_size as int,
                        output_width as int,
                        output_depth as int,
                        output_size as int,
                        &weights,
                        biases@,
                    )
                },
            },
    {
        let size_ok: bool = if output_width == 0 || output_depth == 0 {
            proof {
                assert(
                    (output_depth as int) * (output_width as int) * (output_width as int) == 0)
                    by (nonlinear_arith)
                    requires output_width == 0 || output_depth == 0,
                ;
            }
            output_size == 0
        } else if output_width > usize::MAX / output_width {
            proof {
                lemma_div_le(output_width as int, usize::MAX as int, output_width as int);
                assert((output_depth as int) * (output_width as int) * (output_width as int)
                    >= (output_width as int) * (output_width as int)) by (nonlinear_arith)
                    requires output_depth >= 1, output_width >= 1,
                ;
            }
            false
        } else {
            proof {
                lemma_div_le(output_width as int, usize::MAX as int, output_width as int);
            }
            let sq: usize = output_width * output_width;
            proof {
                assert(sq >= 1) by (nonlinear_arith)
                    requires output_width >= 1, sq == (output_width as int) * (output_width as int),
                ;
            }
            if output_depth > usize::MAX / sq {
                proof {
                    lemma_div_le(output_depth as int, usize::MAX as int, sq as int);
                    assert((output_depth as int) * (output_width as int) * (output_width as int)
                        == (output_depth as int) * (sq as int)) by (nonlinear_arith)
                        requires sq == (output_width as int) * (output_width as int),
                    ;
                }
                false
            } else {
                proof {
                    lemma_div_le(output_depth as int, usize::MAX as int, sq as int);
                    assert((output_depth as int) * (output_width as int) * (output_width as int)
                        == (output_depth as int) * (sq as int)) by (nonlinear_arith)
                        requires sq == (output_width as int) * (output_width as int),
                    ;
                }
                output_size == output_depth * sq
            }
        };
        if !size_ok {
            return Err(ModelError::BadFullyConnectedShape);
        }
        if biases.len() != output_size {
            return Err(ModelError::BadFullyConnectedShape);
        }
        if weights.len() != input_size {
            return Err(ModelError::BadFullyConnectedShape);
        }
        for i in 0..input_size
            invariant
                weights@.len() == input_size,
                forall|a: int| #![trigger weights@[a]]
                    0 <= a < i ==> weights@[a]@.len() == output_size,
        {
            if weights[i].len() != output_size {
                return Err(ModelError::BadFullyConnectedShape);
            }
        }
        Ok(
            FullyConnectedLayer {
                input_size,
                input_width,
                input_depth,
                output_width,
                output_depth,
                output_size,
                weights,
                weight_changes: zero_matrix(input_size, output_size),
                biases,
                bias_changes: zero_row(output_size),
                input: zero_row(input_size),
                output: zero_row(output_size),
            },
        )
    }

    /// Caches the input and lays out the accumulation plan of the forward
    /// pass: for every output unit `j`, the operand pairs of its weighted
    /// sum, in input order. The caller folds each list onto `biases[j]` and
    /// hands the accumulated vector to `finish_forward`.
    pub fn forward_terms(&mut self, input: Vec<u32>) -> (plan: Vec<Vec<(u32, u32)>>)
        requires
            old(self).wf(),
            input@.len() == old(self).input_size,
        ensures
            final(self).wf(),
            final(self).input_size == old(self).input_size,
            final(self).input_width == old(self).input_width,
            final(self).input_depth == old(self).input_depth,
            final(self).output_width == old(self).output_width,
            final(self).output_depth == old(self).output_depth,
            final(self).output_size == old(self).output_size,
            final(self).weights == old(self).weights,
            final(self).biases == old(self).biases,
            final(self).output == old(self).output,
            final(self).input == input,
            plan@.len() == old(self).output_size,
            forall|j: int| #![trigger plan@[j]]
                0 <= j < old(self).output_size
                    ==> fcl_cell_ok(
                        plan@[j], input@, &old(self).weights, j, old(self).input_size as int),
    {
        let isz: usize = self.input_size;
        let os: usize = self.output_size;
        let mut plan: Vec<Vec<(u32, u32)>> = Vec::new();
        for j in 0..os
            invariant
                isz == self.input_size,
                input@.len() == isz,
                mat_dims_ok(&self.weights, isz as int, os as int),
                plan@.len() == j,
                forall|a: int| #![trigger plan@[a]]
                    0 <= a < j ==> fcl_cell_ok(plan@[a], input@, &self.weights, a, isz as int),
        {
            let mut ts: Vec<(u32, u32)> = Vec::new();
            for i in 0..isz
                invariant
                    isz == self.input_size,
                    j < os,
                    input@.len() == isz,
                    mat_dims_ok(&self.weights, isz as int, os as int),
                    ts@.len() == i,
                    forall|a: int| #![trigger ts@[a]]
                        0 <= a < i ==> ts@[a] == (input@[a], self.weights@[a]@[j as int]),
            {
                proof {
                    assert(self.weights@[i as int]@.len() == os);
                }
                ts.push((input[i], self.weights[i][j]));
            }
            plan.push(ts);
        }
        self.input = input;
        plan
    }

    /// Rectifies the accumulated output units, stores them as the flat
    /// output, and reshapes them into a `depth x width x width` tensor by
    /// row-major unflattening.
    pub fn finish_forward(&mut self, acc: Vec<u32>) -> (r: Tensor)
        requires
            old(self).wf(),
            acc@.len() == old(self).output_size,
        ensures
            final(self).wf(),
            final(self).input_size == old(self).input_size,
            final(self).input_width == old(self).input_width,
            final(self).input_depth == old(self).input_depth,
            final(self).output_width == old(self).output_width,
            final(self).output_depth == old(self).output_depth,
            final(self).output_size == old(self).output_size,
            final(self).weights == old(self).weights,
            final(self).biases == old(self).biases,
            final(self).input == old(self).input,
            final(self).output@.len() == old(self).output_size,
            forall|j: int| #![trigger final(self).output@[j]]
                0 <= j < old(self).output_size ==> final(self).output@[j] == spec_relu(acc@[j]),
            dims_ok(
                &r,
                old(self).output_depth as int,
                old(self).output_width as int,
                old(self).output_width as int,
            ),
            forall|i: int, j: int, k: int| #![trigger at(&r, i, j, k)]
                0 <= i < old(self).output_depth && 0 <= j < old(self).output_width
                    && 0 <= k < old(self).output_width
                    ==> at(&r, i, j, k) == spec_relu(
                        acc@[flat_idx(
                            i, j, k, old(self).output_width as int, old(self).output_width as int)]),
    {
        let os: usize = self.output_size;
        let od: usize = self.output_depth;
        let ow: usize = self.output_width;
        let mut act: Vec<u32> = Vec::new();
        for j in 0..os
            invariant
                acc@.len() == os,
                act@.len() == j,
                forall|a: int| #![trigger act@[a]] 0 <= a < j ==> act@[a] == spec_relu(acc@[a]),
        {
            act.push(relu(acc[j]));
        }
        let r = unflatten(&act, od, ow, ow);
        proof {
            assert forall|i: int, j: int, k: int|
                0 <= i < od && 0 <= j < ow && 0 <= k < ow implies
                at(&r, i, j, k) == spec_relu(acc@[flat_idx(i, j, k, ow as int, ow as int)]) by {
                lemma_flat_idx_bounds(i, j, k, od as int, ow as int, ow as int);
                assert(at(&r, i, j, k) == act@[flat_idx(i, j, k, ow as int, ow as int)]);
            }
        }
        self.output = act;
        r
    }
}

} // verus!
