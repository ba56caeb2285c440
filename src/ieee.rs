//! Floating-point values held as their IEEE-754 bit patterns.
//!
//! The store never computes with coordinates; it only checks that they are
//! finite, compares them with fixed bounds, and compares two of them for
//! equality. All three are questions about the bit pattern, answered here with
//! integer arithmetic. A binary64 value is held as the `u64` that
//! `f64::to_bits` gives, a binary32 value as the `u32` of `f32::to_bits`.
use vstd::prelude::*;

verus! {

/// The sign bit of a binary64 pattern.
pub const F64_SIGN: u64 = 0x8000_0000_0000_0000;

/// The magnitude of positive infinity in binary64; larger magnitudes are NaN.
pub const F64_INFINITY: u64 = 0x7ff0_0000_0000_0000;

/// The sign bit of a binary32 pattern.
pub const F32_SIGN: u32 = 0x8000_0000;

/// The magnitude of positive infinity in binary32; larger magnitudes are NaN.
pub const F32_INFINITY: u32 = 0x7f80_0000;

/// All bits of a binary64 pattern but the sign.
pub open spec fn f64_magnitude(bits: u64) -> int {
    (bits % F64_SIGN) as int
}

pub open spec fn f64_negative(bits: u64) -> bool {
    bits >= F64_SIGN
}

pub open spec fn f64_finite(bits: u64) -> bool {
    f64_magnitude(bits) < F64_INFINITY
}

pub open spec fn f64_nan(bits: u64) -> bool {
    f64_magnitude(bits) > F64_INFINITY
}

/// Place of a binary64 value on the number line. For two values that are not
/// NaN, `x <= y` holds exactly when `f64_rank(x) <= f64_rank(y)`; both zeros
/// have rank 0.
pub open spec fn f64_rank(bits: u64) -> int {
    if f64_negative(bits) {
        -f64_magnitude(bits)
    } else {
        f64_magnitude(bits)
    }
}

/// What `==` on two binary64 values gives: false when either is NaN, and
/// otherwise whether they are the same number (so `-0.0 == 0.0`).
pub open spec fn f64_equal(a: u64, b: u64) -> bool {
    !f64_nan(a) && !f64_nan(b) && f64_rank(a) == f64_rank(b)
}

pub open spec fn f32_magnitude(bits: u32) -> int {
    (bits % F32_SIGN) as int
}

pub open spec fn f32_negative(bits: u32) -> bool {
    bits >= F32_SIGN
}

pub open spec fn f32_finite(bits: u32) -> bool {
    f32_magnitude(bits) < F32_INFINITY
}

pub open spec fn f32_nan(bits: u32) -> bool {
    f32_magnitude(bits) > F32_INFINITY
}

/// Place of a binary32 value on the number line, as for `f64_rank`.
pub open spec fn f32_rank(bits: u32) -> int {
    if f32_negative(bits) {
        -f32_magnitude(bits)
    } else {
        f32_magnitude(bits)
    }
}

/// What `==` on two binary32 values gives.
pub open spec fn f32_equal(a: u32, b: u32) -> bool {
    !f32_nan(a) && !f32_nan(b) && f32_rank(a) == f32_rank(b)
}

pub fn f64_is_finite(bits: u64) -> (r: bool)
    ensures
        r == f64_finite(bits),
{
    bits % F64_SIGN < F64_INFINITY
}

pub fn f64_rank_of(bits: u64) -> (r: i64)
    ensures
        r == f64_rank(bits),
{
    let m = (bits % F64_SIGN) as i64;
    if bits >= F64_SIGN {
        -m
    } else {
        m
    }
}

/// Whether `==` holds between two binary64 values.
pub fn f64_eq(a: u64, b: u64) -> (r: bool)
    ensures
        r == f64_equal(a, b),
{
    a % F64_SIGN <= F64_INFINITY && b % F64_SIGN <= F64_INFINITY && f64_rank_of(a) == f64_rank_of(b)
}

pub fn f32_is_finite(bits: u32) -> (r: bool)
    ensures
        r == f32_finite(bits),
{
    bits % F32_SIGN < F32_INFINITY
}

pub fn f32_rank_of(bits: u32) -> (r: i32)
    ensures
        r == f32_rank(bits),
{
    let m = (bits % F32_SIGN) as i32;
    if bits >= F32_SIGN {
        -m
    } else {
        m
    }
}

/// Whether `==` holds between two binary32 values.
pub fn f32_eq(a: u32, b: u32) -> (r: bool)
    ensures
        r == f32_equal(a, b),
{
    a % F32_SIGN <= F32_INFINITY && b % F32_SIGN <= F32_INFINITY && f32_rank_of(a) == f32_rank_of(b)
}

} // verus!
