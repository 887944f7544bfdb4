//! The three scattering models: diffuse, metallic and refractive.
//!
//! Each `scatter` takes the incoming ray and the hit record and returns an
//! attenuation color with an outgoing ray, or `None` for absorption.  The
//! stochastic inputs are pinned by the contracts: every result equals the
//! scatter specification applied to some admissible draw, and a `Center`
//! source fixes the draw, making the result fully determined.

use crate::fixed::{fx_add, fx_add_s, fx_div, fx_div_s, fx_mul, fx_mul_s, fx_neg, fx_neg_s, fx_sqrt,
    fx_sqrt_s, fx_sub, fx_sub_s, FX_ONE};
use crate::hit::HitRecord;
use crate::random::{midpoint_s, RandomSource};
use crate::ray::Ray;
use crate::vec3::{dot_s, len_s, sqlen_s, unit_s, v_add_s, v_scale_s, v_sub_s, Vec3};
use vstd::prelude::*;

verus! {

/// Twice the fixed-point unit, the factor in the mirror-reflection formula.
pub const FX_TWO: i64 = 2 * FX_ONE;

/// Ideal diffuse surface.
#[derive(Clone, Copy, Debug, PartialEq, Eq, Structural)]
pub struct Lambertian {
    pub albedo: Vec3,
}

/// Specular surface with a roughness factor `fuzz`.
#[derive(Clone, Copy, Debug, PartialEq, Eq, Structural)]
pub struct Metal {
    pub albedo: Vec3,
    pub fuzz: i64,
}

/// Refractive surface such as glass.
#[derive(Clone, Copy, Debug, PartialEq, Eq, Structural)]
pub struct Dielectric {
    pub ref_idx: i64,
}

/// The closed set of materials a sphere may carry.
#[derive(Clone, Copy, Debug, PartialEq, Eq, Structural)]
pub enum Material {
    Lambertian(Lambertian),
    Metal(Metal),
    Dielectric(Dielectric),
}

/// A point within the closed unit sphere.
pub open spec fn in_unit_sphere_s(v: Vec3) -> bool {
    sqlen_s(v) <= FX_ONE
}

/// Mirror reflection of `v` about `n`: `v - n * dot(v, n) * 2`.
pub open spec fn reflect_s(v: Vec3, n: Vec3) -> Vec3 {
    v_sub_s(v, v_scale_s(v_scale_s(n, dot_s(v, n)), FX_TWO))
}

/// Snell refraction of `v` through a surface with outward normal `n` and
/// index ratio `ni_over_nt`; `None` only on total internal reflection, that
/// is, only when the discriminant is negative.
pub open spec fn refract_s(v: Vec3, n: Vec3, ni_over_nt: i64) -> Option<Vec3> {
    let u = unit_s(v);
    let dt = dot_s(u, n);
    let disc = fx_sub_s(
        FX_ONE,
        fx_mul_s(fx_mul_s(ni_over_nt, ni_over_nt), fx_sub_s(FX_ONE, fx_mul_s(dt, dt))),
    );
    if disc >= 0 {
        Some(
            v_sub_s(
                v_scale_s(v_sub_s(u, v_scale_s(n, dt)), ni_over_nt),
                v_scale_s(n, fx_sqrt_s(disc)),
            ),
        )
    } else {
        None
    }
}

/// Fifth power under fixed-point multiplication.
pub open spec fn pow5_s(x: i64) -> i64 {
    fx_mul_s(fx_mul_s(fx_mul_s(fx_mul_s(x, x), x), x), x)
}

/// Schlick's approximation of Fresnel reflectance.
pub open spec fn schlick_s(cosine: i64, ref_idx: i64) -> i64 {
    let r0 = fx_div_s(fx_sub_s(FX_ONE, ref_idx), fx_add_s(FX_ONE, ref_idx));
    let r0sq = fx_mul_s(r0, r0);
    fx_add_s(r0sq, fx_mul_s(fx_sub_s(FX_ONE, r0sq), pow5_s(fx_sub_s(FX_ONE, cosine))))
}

/// The diffuse outgoing direction for perturbation `u`: toward
/// `p + normal + u`, expressed as that target minus `p`.
pub open spec fn lambertian_dir_s(p: Vec3, n: Vec3, u: Vec3) -> Vec3 {
    v_sub_s(v_add_s(v_add_s(p, n), u), p)
}

/// What a diffuse surface scatters given perturbation `u`: always its albedo
/// and a ray from the hit point.
pub open spec fn lambertian_scatter_s(m: Lambertian, rec: HitRecord, u: Vec3) -> Option<
    (Vec3, Ray),
> {
    Some((m.albedo, Ray { origin: rec.p, direction: lambertian_dir_s(rec.p, rec.normal, u) }))
}

/// Roughness is clamped into `[0, 1]` before use.
pub open spec fn fuzz_clamp_s(f: i64) -> i64 {
    if f < 0 {
        0
    } else if f < FX_ONE {
        f
    } else {
        FX_ONE
    }
}

/// The metallic outgoing direction for perturbation `u`: the mirror
/// reflection of the unit incoming direction, fuzzed by `u`.
pub open spec fn metal_dir_s(m: Metal, ray_dir: Vec3, n: Vec3, u: Vec3) -> Vec3 {
    v_add_s(reflect_s(unit_s(ray_dir), n), v_scale_s(u, fuzz_clamp_s(m.fuzz)))
}

/// What a metallic surface scatters given perturbation `u`: its albedo and
/// the fuzzed reflection, or absorption when that direction points into the
/// surface.
pub open spec fn metal_scatter_s(m: Metal, ray_in: Ray, rec: HitRecord, u: Vec3) -> Option<
    (Vec3, Ray),
> {
    let d = metal_dir_s(m, ray_in.direction, rec.normal, u);
    if dot_s(d, rec.normal) > 0 {
        Some((m.albedo, Ray { origin: rec.p, direction: d }))
    } else {
        None
    }
}

/// The normal pointing against the ray, and whether the ray is exiting.
pub open spec fn dielectric_exiting_s(ray_in: Ray, rec: HitRecord) -> bool {
    dot_s(ray_in.direction, rec.normal) > 0
}

/// The outward normal the refraction uses.
pub open spec fn outward_normal_s(ray_in: Ray, rec: HitRecord) -> Vec3 {
    if dielectric_exiting_s(ray_in, rec) {
        v_scale_s(rec.normal, (-FX_ONE) as i64)
    } else {
        rec.normal
    }
}

/// The refractive index ratio along the ray.
pub open spec fn ni_over_nt_s(d: Dielectric, ray_in: Ray, rec: HitRecord) -> i64 {
    if dielectric_exiting_s(ray_in, rec) {
        d.ref_idx
    } else {
        fx_div_s(FX_ONE, d.ref_idx)
    }
}

/// The cosine fed to Schlick's approximation.
pub open spec fn cosine_s(d: Dielectric, ray_in: Ray, rec: HitRecord) -> i64 {
    if dielectric_exiting_s(ray_in, rec) {
        fx_div_s(
            fx_mul_s(d.ref_idx, dot_s(ray_in.direction, rec.normal)),
            len_s(ray_in.direction),
        )
    } else {
        fx_div_s(fx_neg_s(dot_s(ray_in.direction, rec.normal)), len_s(ray_in.direction))
    }
}

/// The probability of choosing reflection over refraction: Schlick's value,
/// or one under total internal reflection.
pub open spec fn reflect_prob_s(d: Dielectric, ray_in: Ray, rec: HitRecord) -> i64 {
    if refract_s(ray_in.direction, outward_normal_s(ray_in, rec), ni_over_nt_s(d, ray_in, rec))
        is Some {
        schlick_s(cosine_s(d, ray_in, rec), d.ref_idx)
    } else {
        FX_ONE
    }
}

/// What a refractive surface scatters given the uniform draw `dr` from
/// `[0, FX_ONE)`: never tinted, never absorbed; reflected when `dr` falls
/// under the reflect probability, else refracted.
pub open spec fn dielectric_scatter_s(d: Dielectric, ray_in: Ray, rec: HitRecord, dr: i64) -> Option<
    (Vec3, Ray),
> {
    let direction = if dr < reflect_prob_s(d, ray_in, rec) {
        reflect_s(ray_in.direction, rec.normal)
    } else {
        refract_s(
            ray_in.direction,
            outward_normal_s(ray_in, rec),
            ni_over_nt_s(d, ray_in, rec),
        )->Some_0
    };
    Some((Vec3(FX_ONE, FX_ONE, FX_ONE), Ray { origin: rec.p, direction }))
}

/// Scaling by a zero factor yields the zero vector, whatever the vector:
/// the perturbation term of a metal with `fuzz == 0` vanishes.
pub proof fn lemma_scale_zero(u: Vec3)
    ensures
        v_scale_s(u, 0) == Vec3(0i64, 0i64, 0i64),
{
}

/// A metal with `fuzz == 0` scatters independently of the drawn perturbation.
pub proof fn lemma_metal_zero_fuzz(m: Metal, ray_in: Ray, rec: HitRecord, u: Vec3)
    requires
        m.fuzz == 0,
    ensures
        metal_scatter_s(m, ray_in, rec, u) == metal_scatter_s(
            m,
            ray_in,
            rec,
            Vec3(0i64, 0i64, 0i64),
        ),
{
    lemma_scale_zero(u);
    lemma_scale_zero(Vec3(0i64, 0i64, 0i64));
    assert(metal_dir_s(m, ray_in.direction, rec.normal, u) == metal_dir_s(
        m,
        ray_in.direction,
        rec.normal,
        Vec3(0i64, 0i64, 0i64),
    ));
}

/// The scatter result is the specification applied to some admissible draw.
pub open spec fn scatter_witness_s(
    mat: Material,
    ray_in: Ray,
    rec: HitRecord,
    r: Option<(Vec3, Ray)>,
) -> bool {
    match mat {
        Material::Lambertian(m) => exists|u: Vec3|
            in_unit_sphere_s(u) && r == #[trigger] lambertian_scatter_s(m, rec, u),
        Material::Metal(m) => exists|u: Vec3|
            in_unit_sphere_s(u) && r == #[trigger] metal_scatter_s(m, ray_in, rec, u),
        Material::Dielectric(m) => exists|dr: i64|
            0 <= dr < FX_ONE && r == #[trigger] dielectric_scatter_s(m, ray_in, rec, dr),
    }
}

/// The scatter result under the deterministic `Center` source.
pub open spec fn scatter_center_s(mat: Material, ray_in: Ray, rec: HitRecord) -> Option<
    (Vec3, Ray),
> {
    match mat {
        Material::Lambertian(m) => lambertian_scatter_s(m, rec, Vec3(0, 0, 0)),
        Material::Metal(m) => metal_scatter_s(m, ray_in, rec, Vec3(0, 0, 0)),
        Material::Dielectric(m) => dielectric_scatter_s(m, ray_in, rec, midpoint_s(0, FX_ONE)),
    }
}

/// Draw a point uniformly inside the closed unit sphere by rejection: three
/// coordinates uniform in `[-1, 1)`, retried until the squared length is at
/// most one.  Each round accepts with probability about one half, so the
/// distribution is the uniform one on the ball; the round counter only makes
/// termination provable, and if it were ever exhausted the center (which lies
/// in the ball) would be returned.  A `Center` source accepts the center on
/// the first round.
pub fn random_in_unit_sphere(rs: &mut RandomSource) -> (v: Vec3)
    ensures
        in_unit_sphere_s(v),
        (*old(rs)) is Center ==> v == Vec3(0i64, 0i64, 0i64),
        (*old(rs)) is Center ==> (*final(rs)) is Center,
        (*old(rs)) is Device ==> (*final(rs)) is Device,
{
    let ghost wc: bool = (*rs) is Center;
    let ghost wd: bool = (*rs) is Device;
    let mut v: Vec3 = Vec3(0, 0, 0);
    let mut accepted: bool = false;
    let mut rounds: u64 = 0;
    while !accepted && rounds < 1000000000
        invariant
            wc ==> (*rs) is Center,
            wd ==> (*rs) is Device,
            accepted ==> in_unit_sphere_s(v),
            !accepted ==> v == Vec3(0i64, 0i64, 0i64),
            wc ==> v == Vec3(0i64, 0i64, 0i64),
        decreases 1000000000 - rounds,
    {
        rounds = rounds + 1;
        let x: i64 = rs.draw(-FX_ONE, FX_ONE);
        let y: i64 = rs.draw(-FX_ONE, FX_ONE);
        let z: i64 = rs.draw(-FX_ONE, FX_ONE);
        let cand = Vec3(x, y, z);
        if cand.squared_length() <= FX_ONE {
            v = cand;
            accepted = true;
        }
    }
    proof {
        if !accepted {
            assert(sqlen_s(Vec3(0i64, 0i64, 0i64)) == 0);
        }
    }
    v
}

/// Mirror reflection about a normal.
pub fn reflect(v: &Vec3, normal: &Vec3) -> (r: Vec3)
    ensures
        r == reflect_s(*v, *normal),
{
    v.sub(&normal.scale(Vec3::dot(v, normal)).scale(FX_TWO))
}

/// Snell refraction; `None` signals total internal reflection, which takes
/// a strictly negative discriminant: at a discriminant of exactly zero the
/// grazing refracted ray is still offered.
pub fn refract(v: &Vec3, normal: &Vec3, ni_over_nt: i64) -> (r: Option<Vec3>)
    ensures
        r == refract_s(*v, *normal, ni_over_nt),
{
    let u = v.unit_vector();
    let dt: i64 = Vec3::dot(&u, normal);
    let discriminant: i64 = fx_sub(
        FX_ONE,
        fx_mul(fx_mul(ni_over_nt, ni_over_nt), fx_sub(FX_ONE, fx_mul(dt, dt))),
    );
    if discriminant >= 0 {
        Some(
            u.sub(&normal.scale(dt)).scale(ni_over_nt).sub(&normal.scale(fx_sqrt(discriminant))),
        )
    } else {
        None
    }
}

/// Schlick's reflectance approximation.
pub fn schlick(cosine: i64, ref_idx: i64) -> (r: i64)
    ensures
        r == schlick_s(cosine, ref_idx),
{
    let r0: i64 = fx_div(fx_sub(FX_ONE, ref_idx), fx_add(FX_ONE, ref_idx));
    let r0sq: i64 = fx_mul(r0, r0);
    let omc: i64 = fx_sub(FX_ONE, cosine);
    let p5: i64 = fx_mul(fx_mul(fx_mul(fx_mul(omc, omc), omc), omc), omc);
    fx_add(r0sq, fx_mul(fx_sub(FX_ONE, r0sq), p5))
}

impl Lambertian {
    /// Diffuse scatter: always succeeds, aiming at `p + normal` perturbed by
    /// a point in the unit sphere.
    pub fn scatter(&self, _ray_in: &Ray, record: &HitRecord, rs: &mut RandomSource) -> (r: Option<
        (Vec3, Ray),
    >)
        ensures
            r is Some,
            scatter_witness_s(Material::Lambertian(*self), *_ray_in, *record, r),
            (*old(rs)) is Center ==> r == scatter_center_s(
                Material::Lambertian(*self),
                *_ray_in,
                *record,
            ),
            (*old(rs)) is Center ==> (*final(rs)) is Center,
            (*old(rs)) is Device ==> (*final(rs)) is Device,
    {
        let u = random_in_unit_sphere(rs);
        let target = record.p.add(&record.normal).add(&u);
        let scattered = Ray::new(record.p, target.sub(&record.p));
        let r = Some((self.albedo, scattered));
        proof {
            assert(r == lambertian_scatter_s(*self, *record, u));
        }
        r
    }
}

impl Metal {
    /// Metallic scatter: reflect the unit incoming direction, fuzz it, and
    /// absorb when the result points into the surface.  With `fuzz == 0` the
    /// result does not depend on the drawn perturbation at all.
    #[verifier::rlimit(60)]
    pub fn scatter(&self, ray_in: &Ray, record: &HitRecord, rs: &mut RandomSource) -> (r: Option<
        (Vec3, Ray),
    >)
        ensures
            scatter_witness_s(Material::Metal(*self), *ray_in, *record, r),
            (*old(rs)) is Center ==> r == scatter_center_s(
                Material::Metal(*self),
                *ray_in,
                *record,
            ),
            self.fuzz == 0 ==> r == metal_scatter_s(*self, *ray_in, *record, Vec3(0i64, 0i64, 0i64)),
            (*old(rs)) is Center ==> (*final(rs)) is Center,
            (*old(rs)) is Device ==> (*final(rs)) is Device,
    {
        let fuzz: i64 = if self.fuzz < 0 {
            0
        } else if self.fuzz < FX_ONE {
            self.fuzz
        } else {
            FX_ONE
        };
        let u = random_in_unit_sphere(rs);
        let reflected = reflect(&ray_in.direction.unit_vector(), &record.normal);
        let scattered = Ray::new(record.p, reflected.add(&u.scale(fuzz)));
        let r = if Vec3::dot(&scattered.direction, &record.normal) > 0 {
            Some((self.albedo, scattered))
        } else {
            None
        };
        proof {
            assert(r == metal_scatter_s(*self, *ray_in, *record, u));
            if self.fuzz == 0 {
                lemma_metal_zero_fuzz(*self, *ray_in, *record, u);
            }
        }
        r
    }
}

impl Dielectric {
    /// Refractive scatter: never tints and never absorbs; chooses between
    /// the mirror reflection and the Snell refraction by comparing a fresh
    /// uniform draw against the Schlick reflectance (one under total internal
    /// reflection, so the refracted ray is only used where it exists).
    #[verifier::rlimit(60)]
    pub fn scatter(&self, ray_in: &Ray, record: &HitRecord, rs: &mut RandomSource) -> (r: Option<
        (Vec3, Ray),
    >)
        ensures
            r is Some,
            scatter_witness_s(Material::Dielectric(*self), *ray_in, *record, r),
            (*old(rs)) is Center ==> r == scatter_center_s(
                Material::Dielectric(*self),
                *ray_in,
                *record,
            ),
            (*old(rs)) is Center ==> (*final(rs)) is Center,
            (*old(rs)) is Device ==> (*final(rs)) is Device,
    {
        let reflected = reflect(&ray_in.direction, &record.normal);
        let exiting: bool = Vec3::dot(&ray_in.direction, &record.normal) > 0;
        let outward_normal: Vec3 = if exiting {
            record.normal.scale(-FX_ONE)
        } else {
            record.normal
        };
        let ni_over_nt: i64 = if exiting {
            self.ref_idx
        } else {
            fx_div(FX_ONE, self.ref_idx)
        };
        let cosine: i64 = if exiting {
            fx_div(
                fx_mul(self.ref_idx, Vec3::dot(&ray_in.direction, &record.normal)),
                ray_in.direction.length(),
            )
        } else {
            fx_div(fx_neg(Vec3::dot(&ray_in.direction, &record.normal)), ray_in.direction.length())
        };
        let refracted_opt = refract(&ray_in.direction, &outward_normal, ni_over_nt);
        let reflect_prob: i64 = if refracted_opt.is_some() {
            schlick(cosine, self.ref_idx)
        } else {
            FX_ONE
        };
        let dr: i64 = rs.draw(0, FX_ONE);
        let ray_out = if dr < reflect_prob {
            Ray::new(record.p, reflected)
        } else {
            Ray::new(record.p, refracted_opt.unwrap())
        };
        let r = Some((Vec3(FX_ONE, FX_ONE, FX_ONE), ray_out));
        proof {
            assert(r == dielectric_scatter_s(*self, *ray_in, *record, dr));
        }
        r
    }
}

impl Material {
    /// Dispatch to the variant's scatter rule.
    pub fn scatter(&self, ray_in: &Ray, record: &HitRecord, rs: &mut RandomSource) -> (r: Option<
        (Vec3, Ray),
    >)
        ensures
            scatter_witness_s(*self, *ray_in, *record, r),
            (*old(rs)) is Center ==> r == scatter_center_s(*self, *ray_in, *record),
            self is Lambertian || self is Dielectric ==> r is Some,
            (*old(rs)) is Center ==> (*final(rs)) is Center,
            (*old(rs)) is Device ==> (*final(rs)) is Device,
    {
        match self {
            Material::Lambertian(m) => m.scatter(ray_in, record, rs),
            Material::Metal(m) => m.scatter(ray_in, record, rs),
            Material::Dielectric(m) => m.scatter(ray_in, record, rs),
        }
    }
}

} // verus!
