//! Scalar values of the engine, held as the bit patterns of IEEE 754
//! single-precision numbers.
//!
//! The engine never re-derives arithmetic on these payloads; it only orders
//! them, which IEEE 754 defines purely in terms of the bit pattern: a value
//! is a sign bit followed by a magnitude, magnitudes above the infinity
//! encoding are not-a-number, and any comparison against not-a-number is
//! false. Both the ordering and the rectifier below are stated and proved
//! against that definition.

use vstd::prelude::*;

verus! {

/// Bit pattern of positive zero.
pub const ZERO_BITS: u32 = 0x0000_0000;

/// Bit pattern of negative one, the seed of the pooling scan.
pub const NEG_ONE_BITS: u32 = 0xBF80_0000;

/// Magnitude of the infinity encoding; greater magnitudes are not-a-number.
pub const INF_MAGNITUDE: u32 = 0x7F80_0000;

/// The sign bit of an encoded value.
pub open spec fn sign_of(a: u32) -> bool {
    a >= 0x8000_0000
}

/// The magnitude (all bits but the sign) of an encoded value.
pub open spec fn magnitude_of(a: u32) -> u32 {
    if sign_of(a) {
        (a - 0x8000_0000) as u32
    } else {
        a
    }
}

/// Whether the encoded value is not-a-number.
pub open spec fn is_nan_bits(a: u32) -> bool {
    magnitude_of(a) > INF_MAGNITUDE
}

/// Ordering key of an encoded value: magnitudes order positive values
/// upward and negative values downward, and the two zeroes share key zero.
pub open spec fn order_key(a: u32) -> int {
    if sign_of(a) {
        -(magnitude_of(a) as int)
    } else {
        magnitude_of(a) as int
    }
}

/// The strict `greater than` of IEEE 754 single precision: false whenever
/// either side is not-a-number, else the order of the keys.
pub open spec fn spec_gt(a: u32, b: u32) -> bool {
    !is_nan_bits(a) && !is_nan_bits(b) && order_key(a) > order_key(b)
}

/// The rectifier on encoded values: the argument where it is strictly
/// greater than zero, positive zero otherwise (so also on not-a-number,
/// as the maximum of a number and not-a-number is the number).
pub open spec fn spec_relu(a: u32) -> u32 {
    if spec_gt(a, ZERO_BITS) {
        a
    } else {
        ZERO_BITS
    }
}

/// Compares two encoded values by the strict single-precision `greater than`.
pub fn gt(a: u32, b: u32) -> (r: bool)
    ensures
        r == spec_gt(a, b),
{
    let sa: bool = a >= 0x8000_0000;
    let sb: bool = b >= 0x8000_0000;
    let ma: u32 = if sa { a - 0x8000_0000 } else { a };
    let mb: u32 = if sb { b - 0x8000_0000 } else { b };
    if ma > INF_MAGNITUDE || mb > INF_MAGNITUDE {
        false
    } else if !sa && !sb {
        ma > mb
    } else if !sa && sb {
        ma > 0 || mb > 0
    } else if sa && !sb {
        false
    } else {
        mb > ma
    }
}

/// Applies the rectifier to an encoded value.
pub fn relu(a: u32) -> (r: u32)
    ensures
        r == spec_relu(a),
{
    if gt(a, ZERO_BITS) {
        a
    } else {
        ZERO_BITS
    }
}

} // verus!
