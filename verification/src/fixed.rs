//! Saturating fixed-point scalars.
//!
//! A scalar is an `i64` holding `value * FX_ONE`, so one unit of geometry is
//! `FX_ONE`.  Every operation is total: results are clipped to
//! `[-FX_MAX, FX_MAX]`, and a division by zero saturates to the bound with the
//! sign of the dividend.  Multiplication and division round toward zero, as
//! hardware integer division does.  Each executable operation returns exactly
//! the value of its specification function, so callers compute with the model
//! directly.

use vstd::prelude::*;

verus! {

/// The fixed-point scale: a scalar `x` stands for the real number `x / FX_ONE`.
pub const FX_ONE: i64 = 65536;

/// Largest magnitude a scalar may take; arithmetic saturates here.
pub const FX_MAX: i64 = 0x7fff_ffff_ffff;

/// Magnitude of an integer.
pub open spec fn iabs(x: int) -> int {
    if x < 0 {
        -x
    } else {
        x
    }
}

/// Clip an integer into the representable range.
pub open spec fn fx_clip(x: int) -> int {
    if x > FX_MAX as int {
        FX_MAX as int
    } else if x < -(FX_MAX as int) {
        -(FX_MAX as int)
    } else {
        x
    }
}

/// Division rounding toward zero, for a non-zero divisor.
pub open spec fn tdiv(a: int, b: int) -> int {
    let m = iabs(a) / iabs(b);
    if (a < 0) <==> (b < 0) {
        m
    } else {
        -m
    }
}

/// Saturating sum of two scalars.
pub open spec fn fx_add_s(a: i64, b: i64) -> i64 {
    fx_clip(a + b) as i64
}

/// Saturating difference of two scalars.
pub open spec fn fx_sub_s(a: i64, b: i64) -> i64 {
    fx_clip(a - b) as i64
}

/// Saturating negation of a scalar.
pub open spec fn fx_neg_s(a: i64) -> i64 {
    fx_clip(-(a as int)) as i64
}

/// Saturating product of two scalars, rounded toward zero.
pub open spec fn fx_mul_s(a: i64, b: i64) -> i64 {
    fx_clip(tdiv(a * b, FX_ONE as int)) as i64
}

/// Saturating quotient of two scalars, rounded toward zero.  A zero divisor
/// saturates to the bound carrying the dividend's sign.
pub open spec fn fx_div_s(a: i64, b: i64) -> i64 {
    if b == 0 {
        if a >= 0 {
            FX_MAX
        } else {
            (-(FX_MAX as int)) as i64
        }
    } else {
        fx_clip(tdiv(a * (FX_ONE as int), b as int)) as i64
    }
}

/// The floor of the square root of a non-negative integer.
pub open spec fn sqrt_floor(n: int) -> int {
    choose|r: int| 0 <= r && #[trigger] (r * r) <= n && n < (r + 1) * (r + 1)
}

/// Square root of a scalar: zero on non-positive input (the undefined case),
/// otherwise the rounded-down root.
pub open spec fn fx_sqrt_s(a: i64) -> i64 {
    if a <= 0 {
        0
    } else {
        sqrt_floor(a * (FX_ONE as int)) as i64
    }
}

/// A value in the representable range.
pub open spec fn fx_in_range(x: int) -> bool {
    -(FX_MAX as int) <= x <= FX_MAX as int
}

proof fn lemma_sqrt_exists(n: int)
    requires
        n >= 0,
    ensures
        exists|r: int| 0 <= r && #[trigger] (r * r) <= n && n < (r + 1) * (r + 1),
    decreases n,
{
    if n == 0 {
        assert(0 * 0 <= 0 && 0 < (0 + 1) * (0 + 1)) by (nonlinear_arith);
        assert(0 <= 0 && 0 * 0 <= n && n < (0 + 1) * (0 + 1));
    } else {
        lemma_sqrt_exists(n - 1);
        let r = choose|r: int| 0 <= r && #[trigger] (r * r) <= n - 1 && n - 1 < (r + 1) * (r + 1);
        if (r + 1) * (r + 1) == n {
            assert(0 <= r + 1 && (r + 1) * (r + 1) <= n && n < (r + 2) * (r + 2))
                by (nonlinear_arith)
                requires
                    r >= 0,
                    (r + 1) * (r + 1) == n,
            ;
        } else {
            assert(0 <= r && r * r <= n && n < (r + 1) * (r + 1)) by (nonlinear_arith)
                requires
                    0 <= r,
                    r * r <= n - 1,
                    n - 1 < (r + 1) * (r + 1),
                    (r + 1) * (r + 1) != n,
            ;
        }
    }
}

/// The chosen root satisfies its defining bounds.
pub proof fn lemma_sqrt_floor_bounds(n: int)
    requires
        n >= 0,
    ensures
        0 <= sqrt_floor(n),
        sqrt_floor(n) * sqrt_floor(n) <= n,
        n < (sqrt_floor(n) + 1) * (sqrt_floor(n) + 1),
{
    lemma_sqrt_exists(n);
}

/// Any integer satisfying the root bounds is the rounded-down root.
pub proof fn lemma_sqrt_floor_unique(n: int, r: int)
    requires
        n >= 0,
        0 <= r,
        r * r <= n,
        n < (r + 1) * (r + 1),
    ensures
        r == sqrt_floor(n),
{
    lemma_sqrt_floor_bounds(n);
    let s = sqrt_floor(n);
    assert(r == s) by (nonlinear_arith)
        requires
            0 <= r,
            r * r <= n,
            n < (r + 1) * (r + 1),
            0 <= s,
            s * s <= n,
            n < (s + 1) * (s + 1),
    ;
}

/// Clip a wide intermediate into an `i64` scalar.
fn clip128(x: i128) -> (r: i64)
    ensures
        r == fx_clip(x as int) as i64,
        fx_in_range(r as int),
{
    if x > FX_MAX as i128 {
        FX_MAX
    } else if x < -(FX_MAX as i128) {
        -FX_MAX
    } else {
        x as i64
    }
}

/// Saturating addition.
pub fn fx_add(a: i64, b: i64) -> (r: i64)
    ensures
        r == fx_add_s(a, b),
{
    clip128(a as i128 + b as i128)
}

/// Saturating subtraction.
pub fn fx_sub(a: i64, b: i64) -> (r: i64)
    ensures
        r == fx_sub_s(a, b),
{
    clip128(a as i128 - b as i128)
}

/// Saturating negation.
pub fn fx_neg(a: i64) -> (r: i64)
    ensures
        r == fx_neg_s(a),
{
    clip128(-(a as i128))
}

/// Saturating fixed-point multiplication, rounding toward zero.
pub fn fx_mul(a: i64, b: i64) -> (r: i64)
    ensures
        r == fx_mul_s(a, b),
{
    let neg: bool = (a < 0) != (b < 0);
    let ma: u128 = if a >= 0 {
        a as u128
    } else {
        (-(a as i128)) as u128
    };
    let mb: u128 = if b >= 0 {
        b as u128
    } else {
        (-(b as i128)) as u128
    };
    proof {
        assert(ma as int * mb as int <= u128::MAX as int) by (nonlinear_arith)
            requires
                0 <= ma as int <= 0x8000000000000000,
                0 <= mb as int <= 0x8000000000000000,
        ;
    }
    let q: u128 = (ma * mb) / 65536;
    let qi: i128 = if neg {
        -(q as i128)
    } else {
        q as i128
    };
    proof {
        assert(ma * mb == iabs(a as int * b as int)) by (nonlinear_arith)
            requires
                ma == iabs(a as int),
                mb == iabs(b as int),
        ;
        assert(neg ==> a as int * b as int <= 0) by (nonlinear_arith)
            requires
                neg == ((a < 0) != (b < 0)),
        ;
        assert(!neg ==> a as int * b as int >= 0) by (nonlinear_arith)
            requires
                neg == ((a < 0) != (b < 0)),
        ;
        assert(qi as int == tdiv(a as int * b as int, FX_ONE as int));
    }
    clip128(qi)
}

/// Saturating fixed-point division, rounding toward zero; a zero divisor
/// saturates with the dividend's sign.
pub fn fx_div(a: i64, b: i64) -> (r: i64)
    ensures
        r == fx_div_s(a, b),
{
    if b == 0 {
        if a >= 0 {
            FX_MAX
        } else {
            -FX_MAX
        }
    } else {
        let neg: bool = (a < 0) != (b < 0);
        let ma: u128 = if a >= 0 {
            a as u128
        } else {
            (-(a as i128)) as u128
        };
        let mb: u128 = if b >= 0 {
            b as u128
        } else {
            (-(b as i128)) as u128
        };
        let q: u128 = (ma * 65536) / mb;
        let qi: i128 = if neg {
            -(q as i128)
        } else {
            q as i128
        };
        proof {
            assert(ma * 65536 == iabs(a as int * FX_ONE as int)) by (nonlinear_arith)
                requires
                    ma == iabs(a as int),
            ;
            assert(neg ==> a as int * FX_ONE as int <= 0 <= b as int || (a as int * FX_ONE as int
                >= 0 && b < 0)) by (nonlinear_arith)
                requires
                    neg == ((a < 0) != (b < 0)),
                    b != 0,
            ;
            assert(q as int == iabs(a as int * FX_ONE as int) / iabs(b as int));
            assert(qi as int == tdiv(a as int * FX_ONE as int, b as int)) by (nonlinear_arith)
                requires
                    b != 0,
                    neg == ((a < 0) != (b < 0)),
                    q as int == iabs(a as int * FX_ONE as int) / iabs(b as int),
                    qi as int == if neg {
                        -(q as int)
                    } else {
                        q as int
                    },
            ;
        }
        clip128(qi)
    }
}

/// Rounded-down integer square root by bisection.
fn isqrt(n: u128) -> (r: u128)
    ensures
        0 <= r,
        r * r <= n,
        n < (r + 1) * (r + 1),
{
    let mut lo: u128 = 0;
    let mut hi: u128 = 18446744073709551616;
    proof {
        assert((18446744073709551616 as int) * (18446744073709551616 as int) > u128::MAX as int)
            by (nonlinear_arith);
    }
    while lo + 1 < hi
        invariant
            lo < hi,
            hi <= 18446744073709551616,
            lo * lo <= n,
            (n as int) < (hi as int) * (hi as int),
        decreases hi - lo,
    {
        let mid: u128 = lo + (hi - lo) / 2;
        assert(lo < mid < hi);
        proof {
            assert((mid as int) * (mid as int) <= u128::MAX as int) by (nonlinear_arith)
                requires
                    0 <= mid as int <= 18446744073709551615,
            ;
        }
        let sq: u128 = mid * mid;
        if sq <= n {
            lo = mid;
        } else {
            hi = mid;
        }
    }
    assert(n < (lo + 1) * (lo + 1));
    lo
}

/// Saturating fixed-point square root: zero on non-positive input.
pub fn fx_sqrt(a: i64) -> (r: i64)
    ensures
        r == fx_sqrt_s(a),
        0 <= r <= FX_MAX,
{
    if a <= 0 {
        0
    } else {
        let n: u128 = (a as u128) * 65536;
        let root: u128 = isqrt(n);
        proof {
            assert(root as int <= 0x10000000000) by (nonlinear_arith)
                requires
                    (root as int) * (root as int) <= n as int,
                    n as int <= 0x7fffffffffffffff * 65536,
                    root as int >= 0,
            ;
            lemma_sqrt_floor_unique(n as int, root as int);
        }
        root as i64
    }
}

/// Convert a whole number of units into a scalar, saturating.
pub open spec fn fx_of_int_s(i: i64) -> i64 {
    fx_clip(i * (FX_ONE as int)) as i64
}

/// Convert a whole number of units into a scalar, saturating.
pub fn fx_of_int(i: i64) -> (r: i64)
    ensures
        r == fx_of_int_s(i),
{
    clip128(i as i128 * 65536)
}

} // verus!

