//! Three-component fixed-point vectors, used as points, directions and colors.

use crate::fixed::{
    fx_add, fx_add_s, fx_div, fx_div_s, fx_mul, fx_mul_s, fx_neg, fx_neg_s, fx_sqrt, fx_sqrt_s,
    fx_sub, fx_sub_s, iabs, lemma_sqrt_floor_unique, tdiv, FX_MAX, FX_ONE,
};
use vstd::arithmetic::div_mod::{lemma_div_denominator, lemma_div_multiples_vanish};
use vstd::prelude::*;

verus! {

/// A vector of three fixed-point scalars.
#[derive(Clone, Copy, Debug, PartialEq, Eq, Structural)]
pub struct Vec3(pub i64, pub i64, pub i64);

/// Component-wise sum.
pub open spec fn v_add_s(a: Vec3, b: Vec3) -> Vec3 {
    Vec3(fx_add_s(a.0, b.0), fx_add_s(a.1, b.1), fx_add_s(a.2, b.2))
}

/// Component-wise difference.
pub open spec fn v_sub_s(a: Vec3, b: Vec3) -> Vec3 {
    Vec3(fx_sub_s(a.0, b.0), fx_sub_s(a.1, b.1), fx_sub_s(a.2, b.2))
}

/// Component-wise product.
pub open spec fn v_mul_s(a: Vec3, b: Vec3) -> Vec3 {
    Vec3(fx_mul_s(a.0, b.0), fx_mul_s(a.1, b.1), fx_mul_s(a.2, b.2))
}

/// Product with a scalar.
pub open spec fn v_scale_s(a: Vec3, k: i64) -> Vec3 {
    Vec3(fx_mul_s(a.0, k), fx_mul_s(a.1, k), fx_mul_s(a.2, k))
}

/// Quotient by a scalar.
pub open spec fn v_div_s(a: Vec3, k: i64) -> Vec3 {
    Vec3(fx_div_s(a.0, k), fx_div_s(a.1, k), fx_div_s(a.2, k))
}

/// Dot product, folded left to right as the executable code sums it.
pub open spec fn dot_s(a: Vec3, b: Vec3) -> i64 {
    fx_add_s(fx_add_s(fx_mul_s(a.0, b.0), fx_mul_s(a.1, b.1)), fx_mul_s(a.2, b.2))
}

/// Cross product.
pub open spec fn cross_s(a: Vec3, b: Vec3) -> Vec3 {
    Vec3(
        fx_sub_s(fx_mul_s(a.1, b.2), fx_mul_s(a.2, b.1)),
        fx_neg_s(fx_sub_s(fx_mul_s(a.0, b.2), fx_mul_s(a.2, b.0))),
        fx_sub_s(fx_mul_s(a.0, b.1), fx_mul_s(a.1, b.0)),
    )
}

/// Squared Euclidean length.
pub open spec fn sqlen_s(a: Vec3) -> i64 {
    dot_s(a, a)
}

/// Euclidean length, via the fixed-point square root.
pub open spec fn len_s(a: Vec3) -> i64 {
    fx_sqrt_s(sqlen_s(a))
}

/// Normalization: each component divided by the length.  On a vector whose
/// length computes to zero the quotients saturate; callers are expected to
/// normalize only vectors of positive length.
pub open spec fn unit_s(a: Vec3) -> Vec3 {
    v_div_s(a, len_s(a))
}

impl Vec3 {
    /// Build a vector from its components.
    pub fn new(x: i64, y: i64, z: i64) -> (r: Vec3)
        ensures
            r == Vec3(x, y, z),
    {
        Vec3(x, y, z)
    }

    /// Component-wise sum.
    pub fn add(&self, rhs: &Vec3) -> (r: Vec3)
        ensures
            r == v_add_s(*self, *rhs),
    {
        Vec3(fx_add(self.0, rhs.0), fx_add(self.1, rhs.1), fx_add(self.2, rhs.2))
    }

    /// Component-wise difference.
    pub fn sub(&self, rhs: &Vec3) -> (r: Vec3)
        ensures
            r == v_sub_s(*self, *rhs),
    {
        Vec3(fx_sub(self.0, rhs.0), fx_sub(self.1, rhs.1), fx_sub(self.2, rhs.2))
    }

    /// Component-wise product.
    pub fn mul(&self, rhs: &Vec3) -> (r: Vec3)
        ensures
            r == v_mul_s(*self, *rhs),
    {
        Vec3(fx_mul(self.0, rhs.0), fx_mul(self.1, rhs.1), fx_mul(self.2, rhs.2))
    }

    /// Product with a scalar.
    pub fn scale(&self, k: i64) -> (r: Vec3)
        ensures
            r == v_scale_s(*self, k),
    {
        Vec3(fx_mul(self.0, k), fx_mul(self.1, k), fx_mul(self.2, k))
    }

    /// Quotient by a scalar.
    pub fn div(&self, k: i64) -> (r: Vec3)
        ensures
            r == v_div_s(*self, k),
    {
        Vec3(fx_div(self.0, k), fx_div(self.1, k), fx_div(self.2, k))
    }

    /// Squared Euclidean length.
    pub fn squared_length(&self) -> (r: i64)
        ensures
            r == sqlen_s(*self),
    {
        fx_add(fx_add(fx_mul(self.0, self.0), fx_mul(self.1, self.1)), fx_mul(self.2, self.2))
    }

    /// Euclidean length.
    pub fn length(&self) -> (r: i64)
        ensures
            r == len_s(*self),
    {
        fx_sqrt(self.squared_length())
    }

    /// The vector scaled to unit length.  A vector whose length computes to
    /// zero has no direction; its quotients saturate (the documented policy
    /// for degenerate numerics), so callers should pass vectors of positive
    /// length.
    pub fn unit_vector(&self) -> (r: Vec3)
        ensures
            r == unit_s(*self),
    {
        let len: i64 = self.length();
        Vec3(fx_div(self.0, len), fx_div(self.1, len), fx_div(self.2, len))
    }

    /// Dot product.
    pub fn dot(v1: &Vec3, v2: &Vec3) -> (r: i64)
        ensures
            r == dot_s(*v1, *v2),
    {
        fx_add(fx_add(fx_mul(v1.0, v2.0), fx_mul(v1.1, v2.1)), fx_mul(v1.2, v2.2))
    }

    /// Cross product.
    pub fn cross(v1: &Vec3, v2: &Vec3) -> (r: Vec3)
        ensures
            r == cross_s(*v1, *v2),
    {
        Vec3(
            fx_sub(fx_mul(v1.1, v2.2), fx_mul(v1.2, v2.1)),
            fx_neg(fx_sub(fx_mul(v1.0, v2.2), fx_mul(v1.2, v2.0))),
            fx_sub(fx_mul(v1.0, v2.1), fx_mul(v1.1, v2.0)),
        )
    }
}

/// Division by a positive divisor is exact on multiples of it.
pub proof fn lemma_tdiv_multiple(m: int, d: int)
    requires
        d > 0,
    ensures
        tdiv(m * d, d) == m,
{
    if m >= 0 {
        assert(m * d >= 0) by (nonlinear_arith)
            requires
                m >= 0,
                d > 0,
        ;
        lemma_div_multiples_vanish(m, d);
        assert(m * d == d * m) by (nonlinear_arith);
        assert(tdiv(m * d, d) == m);
    } else {
        assert(m * d < 0) by (nonlinear_arith)
            requires
                m < 0,
                d > 0,
        ;
        assert(iabs(m * d) == -(m * d));
        assert(-(m * d) == (-m) * d) by (nonlinear_arith);
        lemma_div_multiples_vanish(-m, d);
        assert((-m) * d == d * (-m)) by (nonlinear_arith);
        assert(tdiv(m * d, d) == m);
    }
}

/// On whole-unit scalars (integer multiples of `FX_ONE` up to `2^15` units)
/// the fixed-point product is exact.
pub proof fn lemma_grid_mul(x: i64, y: i64)
    requires
        -32768 <= x <= 32768,
        -32768 <= y <= 32768,
    ensures
        fx_mul_s((x * FX_ONE) as i64, (y * FX_ONE) as i64) == ((x * y) * FX_ONE) as i64,
{
    let s = FX_ONE as int;
    let a = x as int * s;
    let b = y as int * s;
    assert(a * b == ((x as int * y as int) * s) * s) by (nonlinear_arith)
        requires
            a == x as int * s,
            b == y as int * s,
    ;
    lemma_tdiv_multiple(x as int * y as int * s, s);
    assert(-(FX_MAX as int) <= x as int * y as int * s <= FX_MAX as int) by (nonlinear_arith)
        requires
            -32768 <= x as int <= 32768,
            -32768 <= y as int <= 32768,
            s == 65536,
            FX_MAX == 0x7fff_ffff_ffff,
    ;
    assert(-(FX_MAX as int) <= a <= FX_MAX as int) by (nonlinear_arith)
        requires
            -32768 <= x as int <= 32768,
            s == 65536,
            a == x as int * s,
            FX_MAX == 0x7fff_ffff_ffff,
    ;
    assert(-(FX_MAX as int) <= b <= FX_MAX as int) by (nonlinear_arith)
        requires
            -32768 <= y as int <= 32768,
            s == 65536,
            b == y as int * s,
            FX_MAX == 0x7fff_ffff_ffff,
    ;
}

/// The mathematical dot product, over unbounded integers.
pub open spec fn dot_int_s(a: (int, int, int), b: (int, int, int)) -> int {
    a.0 * b.0 + a.1 * b.1 + a.2 * b.2
}

/// The mathematical cross product, over unbounded integers.
pub open spec fn cross_int_s(a: (int, int, int), b: (int, int, int)) -> (int, int, int) {
    (a.1 * b.2 - a.2 * b.1, -(a.0 * b.2 - a.2 * b.0), a.0 * b.1 - a.1 * b.0)
}

/// The cross product is orthogonal to both of its factors: in the exact
/// integer model, `dot(cross(u, w), u)` and `dot(cross(u, w), w)` vanish for
/// all `u` and `w`.
pub proof fn lemma_cross_orthogonal_int(a: (int, int, int), b: (int, int, int))
    ensures
        dot_int_s(cross_int_s(a, b), a) == 0,
        dot_int_s(cross_int_s(a, b), b) == 0,
{
    assert((a.1 * b.2 - a.2 * b.1) * a.0 + (-(a.0 * b.2 - a.2 * b.0)) * a.1 + (a.0 * b.1 - a.1
        * b.0) * a.2 == 0) by (nonlinear_arith);
    assert((a.1 * b.2 - a.2 * b.1) * b.0 + (-(a.0 * b.2 - a.2 * b.0)) * b.1 + (a.0 * b.1 - a.1
        * b.0) * b.2 == 0) by (nonlinear_arith);
}

/// A vector whose components are whole units.
pub open spec fn grid_v(x: i64, y: i64, z: i64) -> Vec3 {
    Vec3((x * FX_ONE) as i64, (y * FX_ONE) as i64, (z * FX_ONE) as i64)
}

/// Normalizing an axis-aligned whole-unit vector yields exactly the unit
/// axis vector, whose computed length is in turn exactly one, at every
/// scale `k`.
pub proof fn lemma_unit_axis(k: i64)
    requires
        1 <= k <= 32768,
    ensures
        unit_s(grid_v(k, 0, 0)) == Vec3(FX_ONE, 0i64, 0i64),
        len_s(Vec3(FX_ONE, 0i64, 0i64)) == FX_ONE,
{
    let s = FX_ONE as int;
    let v = grid_v(k, 0, 0);
    lemma_grid_mul(k, k);
    assert(fx_mul_s(0i64, 0i64) == 0i64);
    let q = (k as int * k as int) * s;
    assert(1 <= k as int * k as int <= 32768 * 32768) by (nonlinear_arith)
        requires
            1 <= k as int <= 32768,
    ;
    assert(0 < q <= FX_MAX as int);
    assert(sqlen_s(v) == q as i64);
    let ks = k as int * s;
    assert(q * s == ks * ks && q * s < (ks + 1) * (ks + 1) && 0 <= ks) by (nonlinear_arith)
        requires
            q == (k as int * k as int) * s,
            ks == k as int * s,
            s == 65536,
            1 <= k as int <= 32768,
    ;
    lemma_sqrt_floor_unique(q * s, ks);
    assert(len_s(v) == ks as i64);
    lemma_tdiv_multiple(s, ks);
    assert(ks as i64 != 0i64);
    assert((v.0 as int) * s == s * ks) by (nonlinear_arith)
        requires
            v.0 as int == ks,
            s == 65536,
    ;
    assert(unit_s(v).0 == FX_ONE);
    assert(tdiv(0 * s, ks) == 0) by {
        lemma_tdiv_multiple(0, ks);
        assert(0 * s == 0 * ks) by (nonlinear_arith);
    }
    assert(unit_s(v).1 == 0i64);
    assert(unit_s(v).2 == 0i64);
    let u = Vec3(FX_ONE, 0i64, 0i64);
    lemma_tdiv_multiple(s, s);
    assert(s * s == s * s);
    assert(fx_mul_s(FX_ONE, FX_ONE) == FX_ONE);
    assert(sqlen_s(u) == FX_ONE);
    assert(s * s < (s + 1) * (s + 1) && 0 <= s) by (nonlinear_arith)
        requires
            s == 65536,
    ;
    lemma_sqrt_floor_unique(s * s, s);
    assert(len_s(u) == FX_ONE);
}

/// Normalizing any vector proportional to `(3, 4, 0)` — at every whole-unit
/// scale `k` — yields one and the same result, whose squared length is
/// within three ulps of one: the fixed-point normalization is independent of
/// the input's magnitude.
pub proof fn lemma_unit_three_four_five(k: i64)
    requires
        1 <= k <= 4096,
    ensures
        unit_s(grid_v((3 * k) as i64, (4 * k) as i64, 0)) == Vec3(39321i64, 52428i64, 0i64),
        sqlen_s(Vec3(39321i64, 52428i64, 0i64)) == FX_ONE - 3,
{
    let s = FX_ONE as int;
    let a3: i64 = (3 * k) as i64;
    let a4: i64 = (4 * k) as i64;
    let v = grid_v(a3, a4, 0);
    lemma_grid_mul(a3, a3);
    lemma_grid_mul(a4, a4);
    assert(fx_mul_s(0i64, 0i64) == 0i64);
    let kk = k as int * k as int;
    assert(a3 as int * a3 as int == 9 * kk && a4 as int * a4 as int == 16 * kk && 1 <= kk <= 4096
        * 4096) by (nonlinear_arith)
        requires
            a3 as int == 3 * (k as int),
            a4 as int == 4 * (k as int),
            kk == k as int * k as int,
            1 <= k as int <= 4096,
    ;
    let q = 25 * kk * s;
    assert(sqlen_s(v) == q as i64);
    let ks5 = 5 * (k as int) * s;
    assert(q * s == ks5 * ks5 && q * s < (ks5 + 1) * (ks5 + 1) && 0 <= ks5) by (nonlinear_arith)
        requires
            q == 25 * kk * s,
            kk == k as int * k as int,
            ks5 == 5 * (k as int) * s,
            s == 65536,
            1 <= k as int <= 4096,
    ;
    lemma_sqrt_floor_unique(q * s, ks5);
    assert(len_s(v) == ks5 as i64);
    // First component: (3 k s * s) / (5 k s) == (3 s) / 5 == 39321.
    let ks = k as int * s;
    assert((a3 as int * s) * s == ((3 * s) * ks) && ks5 == ks * 5 && 0 < ks) by (nonlinear_arith)
        requires
            a3 as int == 3 * (k as int),
            ks == k as int * s,
            ks5 == 5 * (k as int) * s,
            s == 65536,
            1 <= k as int <= 4096,
    ;
    lemma_div_denominator((3 * s) * ks, ks, 5);
    lemma_div_multiples_vanish(3 * s, ks);
    assert(ks * (3 * s) == (3 * s) * ks) by (nonlinear_arith);
    assert(((3 * s) * ks) / (ks * 5) == (3 * s) / 5);
    assert(tdiv((a3 as int * s) * s, ks5) == 39321) by {
        assert(iabs((a3 as int * s) * s) == (3 * s) * ks && iabs(ks5) == ks * 5)
            by (nonlinear_arith)
            requires
                (a3 as int * s) * s == (3 * s) * ks,
                ks5 == ks * 5,
                0 < ks,
                s == 65536,
        ;
        assert((3 * s) / 5 == 39321);
    }
    assert(unit_s(v).0 == 39321i64);
    // Second component: (4 k s * s) / (5 k s) == (4 s) / 5 == 52428.
    assert((a4 as int * s) * s == ((4 * s) * ks)) by (nonlinear_arith)
        requires
            a4 as int == 4 * (k as int),
            ks == k as int * s,
            s == 65536,
    ;
    lemma_div_denominator((4 * s) * ks, ks, 5);
    lemma_div_multiples_vanish(4 * s, ks);
    assert(ks * (4 * s) == (4 * s) * ks) by (nonlinear_arith);
    assert(((4 * s) * ks) / (ks * 5) == (4 * s) / 5);
    assert(tdiv((a4 as int * s) * s, ks5) == 52428) by {
        assert(iabs((a4 as int * s) * s) == (4 * s) * ks && iabs(ks5) == ks * 5)
            by (nonlinear_arith)
            requires
                (a4 as int * s) * s == (4 * s) * ks,
                ks5 == ks * 5,
                0 < ks,
                s == 65536,
        ;
        assert((4 * s) / 5 == 52428);
    }
    assert(unit_s(v).1 == 52428i64);
    assert(tdiv(0 * s, ks5) == 0) by {
        lemma_tdiv_multiple(0, ks5);
        assert(0 * s == 0 * ks5) by (nonlinear_arith);
    }
    assert(unit_s(v).2 == 0i64);
    // The squared length of the common result, by direct evaluation.
    let u = Vec3(39321i64, 52428i64, 0i64);
    assert(39321int * 39321 == 1546141041 && 1546141041int / 65536 == 23592) by (nonlinear_arith);
    assert(52428int * 52428 == 2748695184 && 2748695184int / 65536 == 41941) by (nonlinear_arith);
    assert(fx_mul_s(39321i64, 39321i64) == 23592i64);
    assert(fx_mul_s(52428i64, 52428i64) == 41941i64);
    assert(sqlen_s(u) == FX_ONE - 3);
}

impl Default for Vec3 {
    /// The zero vector, doubling as the color black.
    fn default() -> (r: Vec3)
        ensures
            r == Vec3(0i64, 0i64, 0i64),
    {
        Vec3(0, 0, 0)
    }
}

} // verus!
