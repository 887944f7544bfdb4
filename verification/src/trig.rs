//! Small-angle trigonometry for the camera's field of view.
//!
//! Truncated Maclaurin series evaluated in fixed point: accurate to a few
//! parts in ten thousand for angles up to a quarter turn, which covers the
//! half field-of-view angles a camera is built from.

use crate::fixed::{fx_add, fx_add_s, fx_div, fx_div_s, fx_mul, fx_mul_s, fx_sub, fx_sub_s, FX_ONE};
use vstd::prelude::*;

verus! {

/// The half circle in degrees, as a scalar.
pub const FX_DEG_HALF_TURN: i64 = 180 * FX_ONE;

/// Pi as a scalar, rounded down.
pub const FX_PI: i64 = 205887;

/// Divisor of the cubic sine term.
pub const FX_SIX: i64 = 6 * FX_ONE;

/// Divisor of the quintic sine term.
pub const FX_ONE_TWENTY: i64 = 120 * FX_ONE;

/// Divisor of the quadratic cosine term.
pub const FX_TWO_T: i64 = 2 * FX_ONE;

/// Divisor of the quartic cosine term.
pub const FX_TWENTY_FOUR: i64 = 24 * FX_ONE;

/// Divisor of the sextic cosine term.
pub const FX_SEVEN_TWENTY: i64 = 720 * FX_ONE;

/// Degrees to radians: `d * pi / 180`.
pub open spec fn rad_s(deg: i64) -> i64 {
    fx_div_s(fx_mul_s(deg, FX_PI), FX_DEG_HALF_TURN)
}

/// Sine by the series `x - x^3/6 + x^5/120`.
pub open spec fn sin_s(x: i64) -> i64 {
    let x2 = fx_mul_s(x, x);
    let x3 = fx_mul_s(x2, x);
    let x5 = fx_mul_s(x3, x2);
    fx_add_s(fx_sub_s(x, fx_div_s(x3, FX_SIX)), fx_div_s(x5, FX_ONE_TWENTY))
}

/// Cosine by the series `1 - x^2/2 + x^4/24 - x^6/720`.
pub open spec fn cos_s(x: i64) -> i64 {
    let x2 = fx_mul_s(x, x);
    let x4 = fx_mul_s(x2, x2);
    let x6 = fx_mul_s(x4, x2);
    fx_sub_s(
        fx_add_s(fx_sub_s(FX_ONE, fx_div_s(x2, FX_TWO_T)), fx_div_s(x4, FX_TWENTY_FOUR)),
        fx_div_s(x6, FX_SEVEN_TWENTY),
    )
}

/// Tangent as the quotient of the two series.
pub open spec fn tan_s(x: i64) -> i64 {
    fx_div_s(sin_s(x), cos_s(x))
}

/// Degrees to radians.
pub fn rad(deg: i64) -> (r: i64)
    ensures
        r == rad_s(deg),
{
    fx_div(fx_mul(deg, FX_PI), FX_DEG_HALF_TURN)
}

/// Sine of a small angle.
pub fn sin(x: i64) -> (r: i64)
    ensures
        r == sin_s(x),
{
    let x2: i64 = fx_mul(x, x);
    let x3: i64 = fx_mul(x2, x);
    let x5: i64 = fx_mul(x3, x2);
    fx_add(fx_sub(x, fx_div(x3, FX_SIX)), fx_div(x5, FX_ONE_TWENTY))
}

/// Cosine of a small angle.
pub fn cos(x: i64) -> (r: i64)
    ensures
        r == cos_s(x),
{
    let x2: i64 = fx_mul(x, x);
    let x4: i64 = fx_mul(x2, x2);
    let x6: i64 = fx_mul(x4, x2);
    fx_sub(
        fx_add(fx_sub(FX_ONE, fx_div(x2, FX_TWO_T)), fx_div(x4, FX_TWENTY_FOUR)),
        fx_div(x6, FX_SEVEN_TWENTY),
    )
}

/// Tangent of a small angle.
pub fn tan(x: i64) -> (r: i64)
    ensures
        r == tan_s(x),
{
    fx_div(sin(x), cos(x))
}

} // verus!
