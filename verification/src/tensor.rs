//! Channel-major three-dimensional tensors of encoded scalar values, and the
//! flattening and reshaping maps shared by the layers.

use vstd::prelude::*;
use crate::scalar::ZERO_BITS;

verus! {

/// A channel-major tensor: channels of rows of columns.
pub type Tensor = Vec<Vec<Vec<u32>>>;

/// Whether a channel holds exactly `h` rows of `w` columns.
pub open spec fn channel_dims(ch: Vec<Vec<u32>>, h: int, w: int) -> bool {
    &&& ch@.len() == h
    &&& forall|b: int| #![trigger ch@[b]] 0 <= b < h ==> ch@[b]@.len() == w
}

/// Whether `t` holds exactly `d` channels of `h` rows of `w` columns.
pub open spec fn dims_ok(t: &Tensor, d: int, h: int, w: int) -> bool {
    &&& t@.len() == d
    &&& forall|a: int| #![trigger t@[a]] 0 <= a < d ==> channel_dims(t@[a], h, w)
}

/// The value of `t` at channel `i`, row `j`, column `k`.
pub open spec fn at(t: &Tensor, i: int, j: int, k: int) -> u32 {
    t@[i]@[j]@[k]
}

/// The position of cell `(i, j, k)` of a tensor with rows of `h` and columns
/// of `w` in its row-major flattening: channel, then row, then column.
pub open spec fn flat_idx(i: int, j: int, k: int, h: int, w: int) -> int {
    i * h * w + j * w + k
}

/// The flat position of an in-bounds cell lies below the tensor's size.
pub proof fn lemma_flat_idx_bounds(i: int, j: int, k: int, d: int, h: int, w: int)
    requires
        0 <= i < d,
        0 <= j < h,
        0 <= k < w,
    ensures
        0 <= flat_idx(i, j, k, h, w) < d * h * w,
{
    assert(0 <= i * h * w + j * w + k < d * h * w) by (nonlinear_arith)
        requires
            0 <= i < d,
            0 <= j < h,
            0 <= k < w,
    ;
}

/// For a positive divisor, comparing against a quotient is the same as
/// comparing the product against the dividend.
pub proof fn lemma_div_le(a: int, b: int, c: int)
    requires
        c >= 1,
        b >= 0,
        a >= 0,
    ensures
        a <= b / c <==> a * c <= b,
{
    vstd::arithmetic::div_mod::lemma_fundamental_div_mod(b, c);
    vstd::arithmetic::div_mod::lemma_remainder_upper(b, c);
    vstd::arithmetic::div_mod::lemma_div_pos_is_pos(b, c);
    assert(a <= b / c <==> a * c <= b) by (nonlinear_arith)
        requires
            c >= 1,
            b >= 0,
            a >= 0,
            b == c * (b / c) + b % c,
            0 <= b % c < c,
            b / c >= 0,
    ;
}

/// Cells earlier in channel-row-column order sit at smaller flat positions.
pub proof fn lemma_flat_idx_mono(a: int, b: int, c: int, i: int, j: int, k: int, h: int, w: int)
    requires
        0 <= b < h,
        0 <= c < w,
        0 <= j < h,
        0 <= k < w,
        a < i || (a == i && b < j) || (a == i && b == j && c < k),
    ensures
        flat_idx(a, b, c, h, w) < flat_idx(i, j, k, h, w),
{
    assert(a * h * w + b * w + c < i * h * w + j * w + k) by (nonlinear_arith)
        requires
            0 <= b < h,
            0 <= c < w,
            0 <= j < h,
            0 <= k < w,
            a < i || (a == i && b < j) || (a == i && b == j && c < k),
    ;
}

/// Whether a row holds `w` zero cells.
pub open spec fn row_zero(r: Vec<u32>, w: int) -> bool {
    &&& r@.len() == w
    &&& forall|c: int| #![trigger r@[c]] 0 <= c < w ==> r@[c] == ZERO_BITS
}

/// Whether a channel holds `h x w` zero cells.
pub open spec fn channel_zero(ch: Vec<Vec<u32>>, h: int, w: int) -> bool {
    &&& ch@.len() == h
    &&& forall|b: int| #![trigger ch@[b]] 0 <= b < h ==> row_zero(ch@[b], w)
}

/// Builds a row of `n` zero cells.
pub fn zero_row(n: usize) -> (r: Vec<u32>)
    ensures
        row_zero(r, n as int),
{
    let mut r: Vec<u32> = Vec::new();
    for k in 0..n
        invariant
            r@.len() == k,
            forall|c: int| #![trigger r@[c]] 0 <= c < k ==> r@[c] == ZERO_BITS,
    {
        r.push(ZERO_BITS);
    }
    r
}

/// Builds an `h x w` channel of zero cells.
fn zero_channel(h: usize, w: usize) -> (r: Vec<Vec<u32>>)
    ensures
        channel_zero(r, h as int, w as int),
{
    let mut r: Vec<Vec<u32>> = Vec::new();
    for j in 0..h
        invariant
            r@.len() == j,
            forall|b: int| #![trigger r@[b]] 0 <= b < j ==> row_zero(r@[b], w as int),
    {
        r.push(zero_row(w));
    }
    r
}

/// Builds a `d x h x w` tensor holding zero in every cell.
pub fn zero_tensor(d: usize, h: usize, w: usize) -> (t: Tensor)
    ensures
        dims_ok(&t, d as int, h as int, w as int),
        forall|i: int, j: int, k: int| #![trigger at(&t, i, j, k)]
            0 <= i < d && 0 <= j < h && 0 <= k < w ==> at(&t, i, j, k) == ZERO_BITS,
{
    let mut t: Tensor = Vec::new();
    for i in 0..d
        invariant
            t@.len() == i,
            forall|a: int| #![trigger t@[a]] 0 <= a < i ==> channel_zero(t@[a], h as int, w as int),
    {
        t.push(zero_channel(h, w));
    }
    proof {
        assert forall|a: int| 0 <= a < d implies channel_dims(t@[a], h as int, w as int) by {
            assert(channel_zero(t@[a], h as int, w as int));
            assert forall|b: int| 0 <= b < h implies t@[a]@[b]@.len() == w by {
                assert(row_zero(t@[a]@[b], w as int));
            }
        }
        assert forall|i: int, j: int, k: int|
            0 <= i < d && 0 <= j < h && 0 <= k < w implies at(&t, i, j, k) == ZERO_BITS by {
            assert(channel_zero(t@[i], h as int, w as int));
            assert(row_zero(t@[i]@[j], w as int));
            assert(t@[i]@[j]@[k] == ZERO_BITS);
        }
    }
    t
}

/// Whether two channels hold the same rows.
pub open spec fn channel_eq(x: Vec<Vec<u32>>, y: Vec<Vec<u32>>) -> bool {
    &&& x@.len() == y@.len()
    &&& forall|b: int| #![trigger x@[b]] 0 <= b < x@.len() ==> x@[b]@ == y@[b]@
}

/// Copies a row of cells.
fn clone_row(row: &Vec<u32>) -> (r: Vec<u32>)
    ensures
        r@ == row@,
{
    let mut r: Vec<u32> = Vec::new();
    for k in 0..row.len()
        invariant
            r@.len() == k,
            k <= row@.len(),
            forall|c: int| #![trigger r@[c]] 0 <= c < k ==> r@[c] == row@[c],
    {
        r.push(row[k]);
    }
    proof {
        assert(r@ =~= row@);
    }
    r
}

/// Copies a channel row for row.
fn clone_channel(chan: &Vec<Vec<u32>>) -> (r: Vec<Vec<u32>>)
    ensures
        channel_eq(r, *chan),
{
    let mut r: Vec<Vec<u32>> = Vec::new();
    for j in 0..chan.len()
        invariant
            r@.len() == j,
            j <= chan@.len(),
            forall|b: int| #![trigger r@[b]] 0 <= b < j ==> r@[b]@ == chan@[b]@,
    {
        r.push(clone_row(&chan[j]));
    }
    r
}

/// Copies a tensor cell for cell.
pub fn clone_tensor(t: &Tensor) -> (r: Tensor)
    ensures
        r@.len() == t@.len(),
        forall|i: int| #![trigger r@[i]] 0 <= i < t@.len() ==> r@[i]@.len() == t@[i]@.len(),
        forall|i: int, j: int| #![trigger r@[i]@[j]]
            0 <= i < t@.len() && 0 <= j < t@[i]@.len() ==> r@[i]@[j]@ == t@[i]@[j]@,
{
    let mut r: Tensor = Vec::new();
    for i in 0..t.len()
        invariant
            r@.len() == i,
            i <= t@.len(),
            forall|a: int| #![trigger r@[a]] 0 <= a < i ==> channel_eq(r@[a], t@[a]),
    {
        r.push(clone_channel(&t[i]));
    }
    proof {
        assert forall|i: int| 0 <= i < t@.len() implies r@[i]@.len() == t@[i]@.len() by {
            assert(channel_eq(r@[i], t@[i]));
        }
        assert forall|i: int, j: int|
            0 <= i < t@.len() && 0 <= j < t@[i]@.len() implies r@[i]@[j]@ == t@[i]@[j]@ by {
            assert(channel_eq(r@[i], t@[i]));
        }
    }
    r
}

/// Flattens a `d x h x w` tensor into a single vector, channel by channel and
/// row by row within each channel.
pub fn flatten(t: &Tensor, d: usize, h: usize, w: usize) -> (r: Vec<u32>)
    requires
        dims_ok(t, d as int, h as int, w as int),
    ensures
        r@.len() == (d as int) * (h as int) * (w as int),
        forall|i: int, j: int, k: int| #![trigger at(t, i, j, k)]
            0 <= i < d && 0 <= j < h && 0 <= k < w
                ==> r@[flat_idx(i, j, k, h as int, w as int)] == at(t, i, j, k),
{
    let mut r: Vec<u32> = Vec::new();
    proof {
        assert(0 * (h as int) * (w as int) == 0) by (nonlinear_arith);
    }
    for i in 0..d
        invariant
            dims_ok(t, d as int, h as int, w as int),
            r@.len() == i * (h as int) * (w as int),
            forall|a: int, b: int, c: int| #![trigger at(t, a, b, c)]
                0 <= a < i && 0 <= b < h && 0 <= c < w
                    ==> r@[flat_idx(a, b, c, h as int, w as int)] == at(t, a, b, c),
    {
        proof {
            assert(0 * (w as int) == 0) by (nonlinear_arith);
        }
        for j in 0..h
            invariant
                dims_ok(t, d as int, h as int, w as int),
                i < d,
                r@.len() == i * (h as int) * (w as int) + j * (w as int),
                forall|a: int, b: int, c: int| #![trigger at(t, a, b, c)]
                    0 <= a < i && 0 <= b < h && 0 <= c < w
                        ==> r@[flat_idx(a, b, c, h as int, w as int)] == at(t, a, b, c),
                forall|b: int, c: int| #![trigger at(t, i as int, b, c)]
                    0 <= b < j && 0 <= c < w
                        ==> r@[flat_idx(i as int, b, c, h as int, w as int)]
                            == at(t, i as int, b, c),
        {
            for k in 0..w
                invariant
                    dims_ok(t, d as int, h as int, w as int),
                    i < d,
                    j < h,
                    r@.len() == i * (h as int) * (w as int) + j * (w as int) + k,
                    forall|a: int, b: int, c: int| #![trigger at(t, a, b, c)]
                        0 <= a < i && 0 <= b < h && 0 <= c < w
                            ==> r@[flat_idx(a, b, c, h as int, w as int)] == at(t, a, b, c),
                    forall|b: int, c: int| #![trigger at(t, i as int, b, c)]
                        0 <= b < j && 0 <= c < w
                            ==> r@[flat_idx(i as int, b, c, h as int, w as int)]
                                == at(t, i as int, b, c),
                    forall|c: int| #![trigger at(t, i as int, j as int, c)]
                        0 <= c < k
                            ==> r@[flat_idx(i as int, j as int, c, h as int, w as int)]
                                == at(t, i as int, j as int, c),
            {
                let ghost r0 = r@;
                proof {
                    assert(channel_dims(t@[i as int], h as int, w as int));
                }
                r.push(t[i][j][k]);
                proof {
                    assert forall|a: int, b: int, c: int|
                        0 <= a < i && 0 <= b < h && 0 <= c < w implies
                        r@[flat_idx(a, b, c, h as int, w as int)] == at(t, a, b, c) by {
                        lemma_flat_idx_mono(
                            a, b, c, i as int, j as int, k as int, h as int, w as int);
                        assert(r0[flat_idx(a, b, c, h as int, w as int)] == at(t, a, b, c));
                    }
                    assert forall|b: int, c: int|
                        0 <= b < j && 0 <= c < w implies
                        r@[flat_idx(i as int, b, c, h as int, w as int)]
                            == at(t, i as int, b, c) by {
                        lemma_flat_idx_mono(
                            i as int, b, c, i as int, j as int, k as int, h as int, w as int);
                        assert(r0[flat_idx(i as int, b, c, h as int, w as int)]
                            == at(t, i as int, b, c));
                    }
                    assert forall|c: int|
                        0 <= c < k + 1 implies
                        r@[flat_idx(i as int, j as int, c, h as int, w as int)]
                            == at(t, i as int, j as int, c) by {
                        if c < k {
                            lemma_flat_idx_mono(
                                i as int, j as int, c, i as int, j as int, k as int,
                                h as int, w as int);
                            assert(r0[flat_idx(i as int, j as int, c, h as int, w as int)]
                                == at(t, i as int, j as int, c));
                        } else {
                            assert(r@[flat_idx(i as int, j as int, c, h as int, w as int)]
                                == r@[r0.len() as int]);
                        }
                    }
                }
            }
            proof {
                assert((j + 1) * (w as int) == j * (w as int) + (w as int)) by (nonlinear_arith);
            }
        }
        proof {
            assert((i + 1) * (h as int) * (w as int)
                == i * (h as int) * (w as int) + (h as int) * (w as int)) by (nonlinear_arith);
        }
    }
    r
}

/// Whether a row mirrors the stretch of `v` that starts at `base`.
pub open spec fn row_slice(r: Vec<u32>, v: Seq<u32>, base: int, w: int) -> bool {
    &&& r@.len() == w
    &&& forall|c: int| #![trigger r@[c]] 0 <= c < w ==> r@[c] == v[base + c]
}

/// Whether a channel mirrors the `h * w` cells of `v` that start at `base`,
/// row by row.
pub open spec fn channel_slice(ch: Vec<Vec<u32>>, v: Seq<u32>, base: int, h: int, w: int) -> bool {
    &&& ch@.len() == h
    &&& forall|b: int| #![trigger ch@[b]] 0 <= b < h ==> row_slice(ch@[b], v, base + b * w, w)
}

/// Reshapes a flat vector of `d * h * w` values into a `d x h x w` tensor by
/// row-major unflattening.
pub fn unflatten(v: &Vec<u32>, d: usize, h: usize, w: usize) -> (r: Tensor)
    requires
        v@.len() == (d as int) * (h as int) * (w as int),
    ensures
        dims_ok(&r, d as int, h as int, w as int),
        forall|i: int, j: int, k: int| #![trigger at(&r, i, j, k)]
            0 <= i < d && 0 <= j < h && 0 <= k < w
                ==> at(&r, i, j, k) == v@[flat_idx(i, j, k, h as int, w as int)],
{
    let mut r: Tensor = Vec::new();
    let mut n: usize = 0;
    let total: usize = v.len();
    proof {
        assert(0 * (h as int) * (w as int) == 0) by (nonlinear_arith);
    }
    for i in 0..d
        invariant
            v@.len() == (d as int) * (h as int) * (w as int),
            total == v@.len(),
            n == i * (h as int) * (w as int),
            r@.len() == i,
            forall|a: int| #![trigger r@[a]]
                0 <= a < i
                    ==> channel_slice(r@[a], v@, a * (h as int) * (w as int), h as int, w as int),
    {
        let mut chan: Vec<Vec<u32>> = Vec::new();
        proof {
            assert(0 * (w as int) == 0) by (nonlinear_arith);
        }
        for j in 0..h
            invariant
                v@.len() == (d as int) * (h as int) * (w as int),
                total == v@.len(),
                i < d,
                n == i * (h as int) * (w as int) + j * (w as int),
                chan@.len() == j,
                forall|b: int| #![trigger chan@[b]]
                    0 <= b < j
                        ==> row_slice(
                            chan@[b], v@,
                            i * (h as int) * (w as int) + b * (w as int), w as int),
        {
            let mut row: Vec<u32> = Vec::new();
            for k in 0..w
                invariant
                    v@.len() == (d as int) * (h as int) * (w as int),
                    total == v@.len(),
                    i < d,
                    j < h,
                    n == i * (h as int) * (w as int) + j * (w as int) + k,
                    row@.len() == k,
                    forall|c: int| #![trigger row@[c]]
                        0 <= c < k
                            ==> row@[c]
                                == v@[i * (h as int) * (w as int) + j * (w as int) + c],
            {
                proof {
                    lemma_flat_idx_bounds(
                        i as int, j as int, k as int, d as int, h as int, w as int);
                    assert(n < total);
                }
                row.push(v[n]);
                n = n + 1;
            }
            chan.push(row);
            proof {
                assert((j + 1) * (w as int) == j * (w as int) + (w as int)) by (nonlinear_arith);
            }
        }
        r.push(chan);
        proof {
            assert((i + 1) * (h as int) * (w as int)
                == i * (h as int) * (w as int) + (h as int) * (w as int)) by (nonlinear_arith);
        }
    }
    proof {
        assert forall|a: int| 0 <= a < d implies channel_dims(r@[a], h as int, w as int) by {
            assert(channel_slice(r@[a], v@, a * (h as int) * (w as int), h as int, w as int));
            assert forall|b: int| 0 <= b < h implies r@[a]@[b]@.len() == w by {
                assert(row_slice(
                    r@[a]@[b], v@,
                    a * (h as int) * (w as int) + b * (w as int), w as int));
            }
        }
        assert forall|i: int, j: int, k: int|
            0 <= i < d && 0 <= j < h && 0 <= k < w implies
            at(&r, i, j, k) == v@[flat_idx(i, j, k, h as int, w as int)] by {
            assert(channel_slice(r@[i], v@, i * (h as int) * (w as int), h as int, w as int));
            assert(row_slice(
                r@[i]@[j], v@, i * (h as int) * (w as int) + j * (w as int), w as int));
            assert(r@[i]@[j]@[k] == v@[i * (h as int) * (w as int) + j * (w as int) + k]);
        }
    }
    r
}

} // verus!
