//! IEEE-754 single precision values, held as their bit patterns.
//!
//! The event records store `f32` values. This library never computes with
//! them: it keeps the raw bits and decides the comparisons that the format
//! asks for (`x == 0.0`, `0.0 <= x <= 1.0`, `min <= max`, ...) on the bits,
//! following the IEEE-754 ordering.
use vstd::prelude::*;

verus! {

/// Bits of `+0.0`.
pub const ZERO: u32 = 0x0000_0000;
/// Bits of `-0.0`.
pub const NEG_ZERO: u32 = 0x8000_0000;
/// Bits of `1.0`.
pub const ONE: u32 = 0x3F80_0000;
/// Bits of `5.0`.
pub const FIVE: u32 = 0x40A0_0000;
/// Bits of `-5.0`.
pub const NEG_FIVE: u32 = 0xC0A0_0000;
/// Bits of `std::f32::consts::PI`.
pub const PI: u32 = 0x4049_0FDB;
/// Bits of `-std::f32::consts::PI`.
pub const NEG_PI: u32 = 0xC049_0FDB;

/// The sign bit is set.
pub open spec fn negative(b: u32) -> bool {
    b >= 0x8000_0000
}

/// Exponent and mantissa, without the sign.
pub open spec fn magnitude(b: u32) -> int {
    if negative(b) { b - 0x8000_0000 } else { b as int }
}

/// A NaN: all exponent bits set and a mantissa that is not zero.
pub open spec fn is_nan(b: u32) -> bool {
    magnitude(b) > 0x7F80_0000
}

/// The position of a value that is not NaN on the real line (with the
/// infinities at the ends): both zeros map to 0.
pub open spec fn order_key(b: u32) -> int {
    if negative(b) { -magnitude(b) } else { magnitude(b) }
}

/// `a == b` on `f32` values.
pub open spec fn eq(a: u32, b: u32) -> bool {
    !is_nan(a) && !is_nan(b) && order_key(a) == order_key(b)
}

/// `a < b` on `f32` values.
pub open spec fn lt(a: u32, b: u32) -> bool {
    !is_nan(a) && !is_nan(b) && order_key(a) < order_key(b)
}

/// `a <= b` on `f32` values.
pub open spec fn le(a: u32, b: u32) -> bool {
    !is_nan(a) && !is_nan(b) && order_key(a) <= order_key(b)
}

/// `x == 0.0` on an `f32` value: true of both zeros.
pub open spec fn is_zero(b: u32) -> bool {
    b == ZERO || b == NEG_ZERO
}

/// `lo <= x <= hi` on `f32` values.
pub open spec fn in_range(lo: u32, x: u32, hi: u32) -> bool {
    le(lo, x) && le(x, hi)
}

fn key(b: u32) -> (r: (bool, u32))
    ensures
        r.0 == is_nan(b),
        !r.0 ==> order_key(b) == (if negative(b) { -(r.1 as int) } else { r.1 as int }),
        !r.0 ==> (negative(b) <==> (r.1 != 0 && b >= 0x8000_0000)) || r.1 == 0,
        r.1 as int == magnitude(b),
{
    let mag = if b >= 0x8000_0000 { b - 0x8000_0000 } else { b };
    (mag > 0x7F80_0000, mag)
}

/// `a == b` on `f32` values.
pub fn f32_eq(a: u32, b: u32) -> (r: bool)
    ensures
        r == eq(a, b),
{
    let (na, ma) = key(a);
    let (nb, mb) = key(b);
    if na || nb {
        return false;
    }
    if ma == 0 && mb == 0 {
        return true;
    }
    ma == mb && (a >= 0x8000_0000) == (b >= 0x8000_0000)
}

/// `a < b` on `f32` values.
pub fn f32_lt(a: u32, b: u32) -> (r: bool)
    ensures
        r == lt(a, b),
{
    let (na, ma) = key(a);
    let (nb, mb) = key(b);
    if na || nb {
        return false;
    }
    let sa = a >= 0x8000_0000;
    let sb = b >= 0x8000_0000;
    if sa && sb {
        mb < ma
    } else if sa {
        ma != 0 || mb != 0
    } else if sb {
        false
    } else {
        ma < mb
    }
}

/// `a <= b` on `f32` values.
pub fn f32_le(a: u32, b: u32) -> (r: bool)
    ensures
        r == le(a, b),
{
    f32_lt(a, b) || f32_eq(a, b)
}

/// `x == 0.0` on an `f32` value.
pub fn f32_is_zero(b: u32) -> (r: bool)
    ensures
        r == is_zero(b),
        r == eq(b, ZERO),
{
    b == ZERO || b == NEG_ZERO
}

/// `lo <= x <= hi` on `f32` values.
pub fn f32_in_range(lo: u32, x: u32, hi: u32) -> (r: bool)
    ensures
        r == in_range(lo, x, hi),
{
    f32_le(lo, x) && f32_le(x, hi)
}

} // verus!
