//! Spheres and the nearest-hit scan over a scene.

use crate::fixed::{fx_add, fx_add_s, fx_div, fx_div_s, fx_mul, fx_mul_s, fx_neg, fx_neg_s, fx_sqrt,
    fx_sqrt_s, fx_sub, fx_sub_s};
use crate::hit::HitRecord;
use crate::materials::Material;
use crate::ray::{ray_at_s, Ray};
use crate::fixed::{lemma_sqrt_floor_unique, FX_ONE};
use crate::vec3::{dot_s, grid_v, lemma_grid_mul, lemma_tdiv_multiple, v_div_s, v_sub_s, Vec3};
use vstd::prelude::*;

verus! {

/// A sphere with its material.  The radius is expected positive; the
/// intersection code is nevertheless total.
#[derive(Clone, Copy, Debug, PartialEq, Eq, Structural)]
pub struct Sphere {
    pub center: Vec3,
    pub radius: i64,
    pub material: Material,
}

/// The record a hit of `s` at parameter `t` produces: the point reached and
/// the outward normal `(point - center) / radius`.
pub open spec fn hit_record_s(s: Sphere, r: Ray, t: i64) -> HitRecord {
    let p = ray_at_s(r, t);
    HitRecord { t, p, normal: v_div_s(v_sub_s(p, s.center), s.radius), material: s.material }
}

/// Closed-form ray/sphere intersection in the half-coefficient form
/// `a t^2 + 2 b t + c = 0`.  A negative discriminant misses; otherwise the
/// smaller root is accepted if it lies strictly inside `(t_min, t_max)`, else
/// the larger root under the same test.
pub open spec fn sphere_hit_s(s: Sphere, r: Ray, t_min: i64, t_max: i64) -> Option<HitRecord> {
    let oc = v_sub_s(r.origin, s.center);
    let a = dot_s(r.direction, r.direction);
    let b = dot_s(oc, r.direction);
    let c = fx_sub_s(dot_s(oc, oc), fx_mul_s(s.radius, s.radius));
    let disc = fx_sub_s(fx_mul_s(b, b), fx_mul_s(a, c));
    if disc >= 0 {
        let root = fx_sqrt_s(disc);
        let t1 = fx_div_s(fx_sub_s(fx_neg_s(b), root), a);
        if t1 < t_max && t1 > t_min {
            Some(hit_record_s(s, r, t1))
        } else {
            let t2 = fx_div_s(fx_add_s(fx_neg_s(b), root), a);
            if t2 < t_max && t2 > t_min {
                Some(hit_record_s(s, r, t2))
            } else {
                None
            }
        }
    } else {
        None
    }
}

/// The nearest hit among the first `k` spheres, scanning forward and
/// shrinking the far bound to the best parameter found so far.
pub open spec fn scene_hit_upto_s(
    spheres: Seq<Sphere>,
    r: Ray,
    t_min: i64,
    t_max: i64,
    k: int,
) -> Option<HitRecord>
    decreases k,
{
    if k <= 0 {
        None
    } else {
        let prev = scene_hit_upto_s(spheres, r, t_min, t_max, k - 1);
        let closest = match prev {
            Some(h) => h.t,
            None => t_max,
        };
        match sphere_hit_s(spheres[k - 1], r, t_min, closest) {
            Some(h) => Some(h),
            None => prev,
        }
    }
}

/// The nearest hit across a whole scene.
pub open spec fn scene_hit_s(spheres: Seq<Sphere>, r: Ray, t_min: i64, t_max: i64) -> Option<
    HitRecord,
> {
    scene_hit_upto_s(spheres, r, t_min, t_max, spheres.len() as int)
}

/// An accepted scan result lies strictly inside the asked interval.
pub proof fn lemma_scene_hit_bounds(spheres: Seq<Sphere>, r: Ray, t_min: i64, t_max: i64, k: int)
    ensures
        scene_hit_upto_s(spheres, r, t_min, t_max, k) matches Some(h) ==> t_min < h.t < t_max,
    decreases k,
{
    if k > 0 {
        lemma_scene_hit_bounds(spheres, r, t_min, t_max, k - 1);
    }
}

/// The head-on configuration: a unit ray along the first axis from the
/// origin, against a sphere centered `d` whole units away with whole-unit
/// radius `r`.  All its intersection arithmetic is exact.
proof fn lemma_head_on_parts(d: i64, r: i64, mat: Material)
    requires
        1 <= r < d <= 16384,
    ensures
        ({
            let sph = Sphere { center: grid_v(d, 0, 0), radius: (r * FX_ONE) as i64, material: mat };
            let ray = Ray { origin: Vec3(0i64, 0i64, 0i64), direction: Vec3(FX_ONE, 0i64, 0i64) };
            let oc = v_sub_s(ray.origin, sph.center);
            dot_s(ray.direction, ray.direction) == FX_ONE && dot_s(oc, ray.direction) == ((-(
            d as int)) * FX_ONE) as i64 && crate::fixed::fx_sub_s(
                dot_s(oc, oc),
                crate::fixed::fx_mul_s(sph.radius, sph.radius),
            ) == (((d as int * d as int) - (r as int * r as int)) * FX_ONE) as i64
        }),
{
    let s = FX_ONE as int;
    let sph = Sphere { center: grid_v(d, 0, 0), radius: (r * FX_ONE) as i64, material: mat };
    let ray = Ray { origin: Vec3(0i64, 0i64, 0i64), direction: Vec3(FX_ONE, 0i64, 0i64) };
    let oc = v_sub_s(ray.origin, sph.center);
    assert(oc == Vec3(((-(d as int)) * s) as i64, 0i64, 0i64));
    lemma_tdiv_multiple(s, s);
    assert(crate::fixed::fx_mul_s(0i64, 0i64) == 0i64);
    assert(crate::fixed::fx_mul_s(FX_ONE, FX_ONE) == FX_ONE);
    assert(dot_s(ray.direction, ray.direction) == FX_ONE);
    lemma_tdiv_multiple(-(d as int) * s, s);
    assert((((-(d as int)) * s) as i64) as int * (FX_ONE as int) == (-(d as int) * s) * s)
        by (nonlinear_arith)
        requires
            (((-(d as int)) * s) as i64) as int == -(d as int) * s,
            s == 65536,
    ;
    assert(dot_s(oc, ray.direction) == ((-(d as int)) * s) as i64);
    lemma_grid_mul((-(d)) as i64, (-(d)) as i64);
    assert((-(d as int)) * (-(d as int)) == d as int * d as int) by (nonlinear_arith);
    assert(dot_s(oc, oc) == ((d as int * d as int) * s) as i64);
    lemma_grid_mul(r, r);
    assert(1 <= d as int * d as int <= 16384 * 16384 && 1 <= r as int * r as int <= 16384 * 16384)
        by (nonlinear_arith)
        requires
            1 <= r as int <= 16384,
            1 <= d as int <= 16384,
    ;
    assert(crate::fixed::fx_sub_s(
        ((d as int * d as int) * s) as i64,
        ((r as int * r as int) * s) as i64,
    ) == (((d as int * d as int) - (r as int * r as int)) * s) as i64);
}

/// Both roots of the head-on configuration are exact: the near root is
/// `(d - r)` whole units and the far root `(d + r)`.
proof fn lemma_head_on_roots(d: i64, r: i64, mat: Material)
    requires
        1 <= r < d <= 16384,
    ensures
        ({
            let sph = Sphere { center: grid_v(d, 0, 0), radius: (r * FX_ONE) as i64, material: mat };
            let ray = Ray { origin: Vec3(0i64, 0i64, 0i64), direction: Vec3(FX_ONE, 0i64, 0i64) };
            let oc = v_sub_s(ray.origin, sph.center);
            let a = dot_s(ray.direction, ray.direction);
            let b = dot_s(oc, ray.direction);
            let c = fx_sub_s(dot_s(oc, oc), fx_mul_s(sph.radius, sph.radius));
            let disc = fx_sub_s(fx_mul_s(b, b), fx_mul_s(a, c));
            let root = fx_sqrt_s(disc);
            disc >= 0 && fx_div_s(fx_sub_s(fx_neg_s(b), root), a) == ((d - r) * FX_ONE) as i64
                && fx_div_s(fx_add_s(fx_neg_s(b), root), a) == ((d + r) * FX_ONE) as i64
        }),
{
    let s = FX_ONE as int;
    let sph = Sphere { center: grid_v(d, 0, 0), radius: (r * FX_ONE) as i64, material: mat };
    let ray = Ray { origin: Vec3(0i64, 0i64, 0i64), direction: Vec3(FX_ONE, 0i64, 0i64) };
    lemma_head_on_parts(d, r, mat);
    let oc = v_sub_s(ray.origin, sph.center);
    let a = dot_s(ray.direction, ray.direction);
    let b = dot_s(oc, ray.direction);
    let c = crate::fixed::fx_sub_s(dot_s(oc, oc), crate::fixed::fx_mul_s(sph.radius, sph.radius));
    let dd = d as int * d as int;
    let rr = r as int * r as int;
    assert(1 <= dd <= 16384 * 16384 && 1 <= rr <= 16384 * 16384 && rr < dd) by (nonlinear_arith)
        requires
            1 <= r as int <= 16384,
            1 <= d as int <= 16384,
            r < d,
            dd == d as int * d as int,
            rr == r as int * r as int,
    ;
    lemma_grid_mul((-(d)) as i64, (-(d)) as i64);
    assert((-(d as int)) * (-(d as int)) == dd) by (nonlinear_arith)
        requires
            dd == d as int * d as int,
    ;
    assert(crate::fixed::fx_mul_s(b, b) == (dd * s) as i64);
    lemma_tdiv_multiple((dd - rr) * s, s);
    assert((FX_ONE as int) * (((dd - rr) * s) as i64) as int == ((dd - rr) * s) * s)
        by (nonlinear_arith)
        requires
            (((dd - rr) * s) as i64) as int == (dd - rr) * s,
            s == 65536,
    ;
    assert(crate::fixed::fx_mul_s(a, c) == ((dd - rr) * s) as i64);
    let disc = crate::fixed::fx_sub_s(
        crate::fixed::fx_mul_s(b, b),
        crate::fixed::fx_mul_s(a, c),
    );
    assert(disc == (rr * s) as i64);
    let rs = r as int * s;
    assert((rr * s) * s == rs * rs && (rr * s) * s < (rs + 1) * (rs + 1) && 0 <= rs)
        by (nonlinear_arith)
        requires
            rr == r as int * r as int,
            rs == r as int * s,
            s == 65536,
            1 <= r as int <= 16384,
    ;
    lemma_sqrt_floor_unique((rr * s) * s, rs);
    assert(crate::fixed::fx_sqrt_s(disc) == rs as i64);
    let num = crate::fixed::fx_sub_s(crate::fixed::fx_neg_s(b), crate::fixed::fx_sqrt_s(disc));
    assert(num == ((d as int - r as int) * s) as i64);
    lemma_tdiv_multiple((d as int - r as int) * s, s);
    assert((num as int) * s == ((d as int - r as int) * s) * s) by (nonlinear_arith)
        requires
            num as int == (d as int - r as int) * s,
            s == 65536,
    ;
    assert(crate::fixed::fx_div_s(num, a) == ((d as int - r as int) * s) as i64);
    let num2 = crate::fixed::fx_add_s(crate::fixed::fx_neg_s(b), crate::fixed::fx_sqrt_s(disc));
    assert(num2 == ((d as int + r as int) * s) as i64);
    lemma_tdiv_multiple((d as int + r as int) * s, s);
    assert((num2 as int) * s == ((d as int + r as int) * s) * s) by (nonlinear_arith)
        requires
            num2 as int == (d as int + r as int) * s,
            s == 65536,
    ;
    assert(crate::fixed::fx_div_s(num2, a) == ((d as int + r as int) * s) as i64);
}

/// A ray aimed straight at a sphere's center from `d` whole units outside a
/// whole-unit radius `r` first meets it at exactly `t = d - r`, whenever
/// that parameter lies strictly inside the asked interval.
pub proof fn lemma_head_on_hit(d: i64, r: i64, t_min: i64, t_max: i64, mat: Material)
    requires
        1 <= r < d <= 16384,
        t_min < (d - r) * FX_ONE < t_max,
    ensures
        ({
            let sph = Sphere { center: grid_v(d, 0, 0), radius: (r * FX_ONE) as i64, material: mat };
            let ray = Ray { origin: Vec3(0i64, 0i64, 0i64), direction: Vec3(FX_ONE, 0i64, 0i64) };
            sphere_hit_s(sph, ray, t_min, t_max) matches Some(h) && h.t == ((d - r) * FX_ONE) as i64
        }),
{
    lemma_head_on_roots(d, r, mat);
}

/// When the asked interval starts at or past the entry parameter, the same
/// head-on ray leaves the sphere at exactly `t = d + r`.
pub proof fn lemma_head_on_exit(d: i64, r: i64, t_min: i64, t_max: i64, mat: Material)
    requires
        1 <= r < d <= 16384,
        (d - r) * FX_ONE <= t_min,
        t_min < (d + r) * FX_ONE < t_max,
    ensures
        ({
            let sph = Sphere { center: grid_v(d, 0, 0), radius: (r * FX_ONE) as i64, material: mat };
            let ray = Ray { origin: Vec3(0i64, 0i64, 0i64), direction: Vec3(FX_ONE, 0i64, 0i64) };
            sphere_hit_s(sph, ray, t_min, t_max) matches Some(h) && h.t == ((d + r) * FX_ONE) as i64
        }),
{
    lemma_head_on_roots(d, r, mat);
}

/// A unit ray whose perpendicular distance from a sphere's center exceeds
/// the radius misses it: the discriminant is exactly negative and the test
/// returns no hit, whatever the interval.
pub proof fn lemma_closest_approach_miss(d: i64, e: i64, r: i64, t_min: i64, t_max: i64, mat: Material)
    requires
        0 <= d <= 16384,
        1 <= r < e <= 16384,
    ensures
        sphere_hit_s(
            Sphere { center: grid_v(d, e, 0), radius: (r * FX_ONE) as i64, material: mat },
            Ray { origin: Vec3(0i64, 0i64, 0i64), direction: Vec3(FX_ONE, 0i64, 0i64) },
            t_min,
            t_max,
        ) is None,
{
    let s = FX_ONE as int;
    let sph = Sphere { center: grid_v(d, e, 0), radius: (r * FX_ONE) as i64, material: mat };
    let ray = Ray { origin: Vec3(0i64, 0i64, 0i64), direction: Vec3(FX_ONE, 0i64, 0i64) };
    let oc = v_sub_s(ray.origin, sph.center);
    assert(oc == Vec3(((-(d as int)) * s) as i64, ((-(e as int)) * s) as i64, 0i64));
    lemma_tdiv_multiple(s, s);
    assert(crate::fixed::fx_mul_s(0i64, 0i64) == 0i64);
    assert(crate::fixed::fx_mul_s(FX_ONE, FX_ONE) == FX_ONE);
    let a = dot_s(ray.direction, ray.direction);
    assert(a == FX_ONE);
    lemma_tdiv_multiple(-(d as int) * s, s);
    assert((((-(d as int)) * s) as i64) as int * (FX_ONE as int) == (-(d as int) * s) * s)
        by (nonlinear_arith)
        requires
            (((-(d as int)) * s) as i64) as int == -(d as int) * s,
            s == 65536,
    ;
    assert(crate::fixed::fx_mul_s(oc.0, ray.direction.0) == ((-(d as int)) * s) as i64);
    assert(crate::fixed::fx_mul_s(oc.1, ray.direction.1) == 0i64) by {
        assert((((-(e as int)) * s) as i64) as int * 0 == 0) by (nonlinear_arith);
        assert(crate::fixed::tdiv(0, s) == 0);
    }
    assert(crate::fixed::fx_mul_s(oc.2, ray.direction.2) == 0i64);
    let b = dot_s(oc, ray.direction);
    assert(b == ((-(d as int)) * s) as i64);
    let dd = d as int * d as int;
    let ee = e as int * e as int;
    let rr = r as int * r as int;
    assert(0 <= dd <= 16384 * 16384 && 1 <= ee <= 16384 * 16384 && 1 <= rr <= 16384 * 16384 && rr
        < ee) by (nonlinear_arith)
        requires
            0 <= d as int <= 16384,
            1 <= e as int <= 16384,
            1 <= r as int <= 16384,
            r < e,
            dd == d as int * d as int,
            ee == e as int * e as int,
            rr == r as int * r as int,
    ;
    lemma_grid_mul((-(d)) as i64, (-(d)) as i64);
    lemma_grid_mul((-(e)) as i64, (-(e)) as i64);
    assert((-(d as int)) * (-(d as int)) == dd && (-(e as int)) * (-(e as int)) == ee)
        by (nonlinear_arith)
        requires
            dd == d as int * d as int,
            ee == e as int * e as int,
    ;
    assert(dot_s(oc, oc) == ((dd + ee) * s) as i64);
    lemma_grid_mul(r, r);
    let c = crate::fixed::fx_sub_s(dot_s(oc, oc), crate::fixed::fx_mul_s(sph.radius, sph.radius));
    assert(c == ((dd + ee - rr) * s) as i64);
    assert(crate::fixed::fx_mul_s(b, b) == (dd * s) as i64);
    lemma_tdiv_multiple((dd + ee - rr) * s, s);
    assert((FX_ONE as int) * (((dd + ee - rr) * s) as i64) as int == ((dd + ee - rr) * s) * s)
        by (nonlinear_arith)
        requires
            (((dd + ee - rr) * s) as i64) as int == (dd + ee - rr) * s,
            s == 65536,
    ;
    assert(crate::fixed::fx_mul_s(a, c) == ((dd + ee - rr) * s) as i64);
    let disc = crate::fixed::fx_sub_s(
        crate::fixed::fx_mul_s(b, b),
        crate::fixed::fx_mul_s(a, c),
    );
    assert(disc == ((rr - ee) * s) as i64);
    assert(disc < 0);
}

impl Sphere {
    /// Build a sphere.
    pub fn new(center: Vec3, radius: i64, material: Material) -> (s: Sphere)
        requires
            radius > 0,
        ensures
            s == (Sphere { center, radius, material }),
    {
        Sphere { center, radius, material }
    }

    /// The nearest intersection of `ray` with this sphere strictly inside
    /// `(t_min, t_max)`, if any.
    pub fn hit(&self, ray: &Ray, t_min: i64, t_max: i64) -> (r: Option<HitRecord>)
        ensures
            r == sphere_hit_s(*self, *ray, t_min, t_max),
            r matches Some(h) ==> t_min < h.t < t_max,
    {
        let oc = ray.origin.sub(&self.center);
        let a: i64 = Vec3::dot(&ray.direction, &ray.direction);
        let b: i64 = Vec3::dot(&oc, &ray.direction);
        let c: i64 = fx_sub(Vec3::dot(&oc, &oc), fx_mul(self.radius, self.radius));
        let discriminant: i64 = fx_sub(fx_mul(b, b), fx_mul(a, c));
        if discriminant >= 0 {
            let root: i64 = fx_sqrt(discriminant);
            let t: i64 = fx_div(fx_sub(fx_neg(b), root), a);
            if t < t_max && t > t_min {
                let p = ray.calc_point(t);
                let normal = p.sub(&self.center).div(self.radius);
                return Some(HitRecord { t, p, normal, material: self.material });
            }
            let t: i64 = fx_div(fx_add(fx_neg(b), root), a);
            if t < t_max && t > t_min {
                let p = ray.calc_point(t);
                let normal = p.sub(&self.center).div(self.radius);
                return Some(HitRecord { t, p, normal, material: self.material });
            }
        }
        None
    }
}

/// The nearest hit across all spheres: a linear scan that shrinks the far
/// bound to the best parameter found so far.
pub fn hit(sphere_vec: &[Sphere], r: &Ray, t_min: i64, t_max: i64) -> (res: Option<HitRecord>)
    ensures
        res == scene_hit_s(sphere_vec@, *r, t_min, t_max),
        res matches Some(h) ==> t_min < h.t < t_max,
{
    let mut closest: i64 = t_max;
    let mut result: Option<HitRecord> = None;
    let n: usize = sphere_vec.len();
    let mut i: usize = 0;
    while i < n
        invariant
            n == sphere_vec@.len(),
            i <= n,
            result == scene_hit_upto_s(sphere_vec@, *r, t_min, t_max, i as int),
            closest == match result {
                Some(h) => h.t,
                None => t_max,
            },
        decreases n - i,
    {
        let sphere = &sphere_vec[i];
        match sphere.hit(r, t_min, closest) {
            Some(hit_record) => {
                closest = hit_record.t;
                result = Some(hit_record);
            },
            None => {},
        }
        i = i + 1;
    }
    proof {
        lemma_scene_hit_bounds(sphere_vec@, *r, t_min, t_max, n as int);
    }
    result
}

} // verus!
