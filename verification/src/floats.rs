//! The order of floating-point numbers, on the bit patterns that hold them.
//!
//! Samples and coordinates travel through the library as the bit patterns of
//! IEEE 754 numbers. Patterns of one sign are ordered as the integers that they
//! spell, the two zeros are equal, and a NaN is comparable with nothing.

use vstd::prelude::*;

verus! {

/// The pattern of positive infinity, in single precision.
pub const INFINITY_32: u32 = 0x7f80_0000;

/// The pattern of negative infinity, in single precision.
pub const NEG_INFINITY_32: u32 = 0xff80_0000;

/// Where the number stands among the single-precision numbers; a NaN stands
/// nowhere.
pub open spec fn rank_32(bits: u32) -> Option<int> {
    let magnitude = bits as int % 0x8000_0000;
    if magnitude > 0x7f80_0000 {
        None
    } else if bits < 0x8000_0000 {
        Some(magnitude)
    } else {
        Some(-magnitude)
    }
}

/// Whether the first number is less than the second.
pub open spec fn less_32(a: u32, b: u32) -> bool {
    match (rank_32(a), rank_32(b)) {
        (Some(x), Some(y)) => x < y,
        _ => false,
    }
}

/// Where the number stands among the double-precision numbers; a NaN stands
/// nowhere.
pub open spec fn rank_64(bits: u64) -> Option<int> {
    let magnitude = bits as int % 0x8000_0000_0000_0000;
    if magnitude > 0x7ff0_0000_0000_0000 {
        None
    } else if bits < 0x8000_0000_0000_0000 {
        Some(magnitude)
    } else {
        Some(-magnitude)
    }
}

/// Whether the first number is less than the second.
pub open spec fn less_64(a: u64, b: u64) -> bool {
    match (rank_64(a), rank_64(b)) {
        (Some(x), Some(y)) => x < y,
        _ => false,
    }
}

/// Whether the pattern is that of a NaN.
pub fn is_nan_32(bits: u32) -> (r: bool)
    ensures
        r <==> rank_32(bits) is None,
{
    bits % 0x8000_0000 > 0x7f80_0000
}

/// Where a number stands among the single-precision numbers.
fn place_32(bits: u32) -> (r: i64)
    requires
        rank_32(bits) is Some,
    ensures
        Some(r as int) == rank_32(bits),
{
    let magnitude: i64 = (bits % 0x8000_0000) as i64;
    if bits < 0x8000_0000 {
        magnitude
    } else {
        -magnitude
    }
}

/// Whether the first number is less than the second.
pub fn is_less_32(a: u32, b: u32) -> (r: bool)
    ensures
        r <==> less_32(a, b),
{
    if is_nan_32(a) || is_nan_32(b) {
        false
    } else {
        place_32(a) < place_32(b)
    }
}

/// Whether the pattern is that of a NaN.
pub fn is_nan_64(bits: u64) -> (r: bool)
    ensures
        r <==> rank_64(bits) is None,
{
    bits % 0x8000_0000_0000_0000 > 0x7ff0_0000_0000_0000
}

/// Where a number stands among the double-precision numbers.
fn place_64(bits: u64) -> (r: i64)
    requires
        rank_64(bits) is Some,
    ensures
        Some(r as int) == rank_64(bits),
{
    let magnitude: i64 = (bits % 0x8000_0000_0000_0000) as i64;
    if bits < 0x8000_0000_0000_0000 {
        magnitude
    } else {
        -magnitude
    }
}

/// Whether the first number is less than the second.
pub fn is_less_64(a: u64, b: u64) -> (r: bool)
    ensures
        r <==> less_64(a, b),
{
    if is_nan_64(a) || is_nan_64(b) {
        false
    } else {
        place_64(a) < place_64(b)
    }
}

/// The single-precision numbers are told apart: positive ones are ordered as their
/// patterns, negative ones the other way round, a negative one comes before every
/// positive one but for the two zeros, and a NaN before or behind nothing.
pub proof fn law_order_32(a: u32, b: u32)
    ensures
        a <= 0x7f80_0000 && b <= 0x7f80_0000 ==> {
            &&& less_32(a, b) <==> a < b
            &&& less_32((b + 0x8000_0000) as u32, (a + 0x8000_0000) as u32) <==> a < b
            &&& less_32((a + 0x8000_0000) as u32, b) <==> a != 0 || b != 0
            &&& !less_32(a, (b + 0x8000_0000) as u32)
        },
        a % 0x8000_0000 > 0x7f80_0000 ==> !less_32(a, b) && !less_32(b, a),
{
}

/// A single-precision pattern stands nowhere exactly where it is that of a NaN, and
/// two stand at one place only where they are equal, or are the two zeros.
pub proof fn law_rank_32(a: u32, b: u32)
    ensures
        rank_32(a) is None <==> a % 0x8000_0000 > 0x7f80_0000,
        rank_32(a) is Some && rank_32(a) == rank_32(b) ==> a == b || (a % 0x8000_0000 == 0 && b
            % 0x8000_0000 == 0),
        less_32(a, b) <==> (rank_32(a) matches Some(x) && rank_32(b) matches Some(y) && x < y),
{
}

/// The double-precision numbers are told apart: positive ones are ordered as their
/// patterns, negative ones the other way round, a negative one comes before every
/// positive one but for the two zeros, and a NaN before or behind nothing.
pub proof fn law_order_64(a: u64, b: u64)
    ensures
        a <= 0x7ff0_0000_0000_0000 && b <= 0x7ff0_0000_0000_0000 ==> {
            &&& less_64(a, b) <==> a < b
            &&& less_64((b + 0x8000_0000_0000_0000) as u64, (a + 0x8000_0000_0000_0000) as u64) <==> a < b
            &&& less_64((a + 0x8000_0000_0000_0000) as u64, b) <==> a != 0 || b != 0
            &&& !less_64(a, (b + 0x8000_0000_0000_0000) as u64)
        },
        a % 0x8000_0000_0000_0000 > 0x7ff0_0000_0000_0000 ==> !less_64(a, b) && !less_64(b, a),
{
}

/// A double-precision pattern stands nowhere exactly where it is that of a NaN, and
/// two stand at one place only where they are equal, or are the two zeros.
pub proof fn law_rank_64(a: u64, b: u64)
    ensures
        rank_64(a) is None <==> a % 0x8000_0000_0000_0000 > 0x7ff0_0000_0000_0000,
        rank_64(a) is Some && rank_64(a) == rank_64(b) ==> a == b || (a % 0x8000_0000_0000_0000 == 0 && b
            % 0x8000_0000_0000_0000 == 0),
        less_64(a, b) <==> (rank_64(a) matches Some(x) && rank_64(b) matches Some(y) && x < y),
{
}

/// Every single-precision number but the infinities lies between them.
pub proof fn law_infinities_are_outermost(a: u32)
    requires
        a % 0x8000_0000 <= 0x7f80_0000,
    ensures
        a != INFINITY_32 ==> less_32(a, INFINITY_32),
        a != NEG_INFINITY_32 ==> less_32(NEG_INFINITY_32, a),
{
}

} // verus!
