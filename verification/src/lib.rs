//! A stochastic path tracer over spheres.
//!
//! The renderer casts jittered camera rays at a scene of spheres, bounces
//! them off diffuse, metallic and refractive surfaces, and averages the
//! gathered radiance into an ASCII pixel map.  All numerics use the
//! saturating fixed-point scalars of [`fixed`], so every stage carries an
//! exact contract over that model.

pub mod camera;
pub mod fixed;
pub mod hit;
pub mod materials;
pub mod objects;
pub mod ppm;
pub mod random;
pub mod ray;
pub mod trig;
pub mod vec3;

use crate::camera::{camera_new_s, get_ray_s, Camera};
use crate::fixed::{fx_add, fx_add_s, fx_div, fx_div_s, fx_in_range, fx_mul_s, fx_of_int,
    fx_of_int_s, fx_sub_s, FX_MAX, FX_ONE};
use vstd::arithmetic::div_mod::{lemma_div_is_ordered, lemma_div_pos_is_pos,
    lemma_fundamental_div_mod_converse};
use crate::materials::{scatter_center_s, Dielectric, Lambertian, Material, Metal};
use crate::objects::{hit, scene_hit_s, Sphere};
use crate::ppm::{ascii_string, body_of, channels_ok, chars_of_bytes, header_bytes_s,
    lemma_body_push, lemma_dec_ascii, lemma_quantize_range, pixel_line_s, push_header, push_pixel,
    quantize, quantize_s};
use crate::random::{midpoint_s, RandomSource};
use crate::ray::Ray;
use crate::vec3::{lemma_tdiv_multiple, unit_s, v_add_s, v_div_s, v_mul_s, v_scale_s, Vec3};
use vstd::prelude::*;

verus! {

/// The shadow-acne epsilon: 0.001 at the fixed-point scale, rounded up.
pub const T_MIN_FX: i64 = 66;

/// The bounce cap of the integrator.
pub const MAX_DEPTH: i32 = 50;

/// One half at the fixed-point scale.
pub const FX_HALF: i64 = 32768;

/// White, the lower end of the background gradient.
pub open spec fn white_s() -> Vec3 {
    Vec3(FX_ONE, FX_ONE, FX_ONE)
}

/// Sky blue `(0.5, 0.7, 1.0)`, the upper end of the background gradient,
/// rounded to the fixed-point scale.
pub open spec fn sky_s() -> Vec3 {
    Vec3(FX_HALF, 45875, FX_ONE)
}

/// The background a missed ray sees: white blended toward sky blue by
/// `t = (unit_direction.y + 1) / 2`.
pub open spec fn background_s(r: Ray) -> Vec3 {
    let t = fx_mul_s(FX_HALF, crate::fixed::fx_add_s(unit_s(r.direction).1, FX_ONE));
    v_add_s(v_scale_s(white_s(), fx_sub_s(FX_ONE, t)), v_scale_s(sky_s(), t))
}

/// The gradient's endpoints are exact: a ray pointing straight up sees
/// exactly the sky color, and a ray pointing straight down sees exactly
/// white, whatever the ray's origin.
pub proof fn lemma_background_endpoints(o: Vec3)
    ensures
        background_s(Ray { origin: o, direction: Vec3(0i64, FX_ONE, 0i64) }) == sky_s(),
        background_s(Ray { origin: o, direction: Vec3(0i64, (-FX_ONE) as i64, 0i64) }) == white_s(),
{
    let s = FX_ONE as int;
    lemma_tdiv_multiple(s, s);
    lemma_tdiv_multiple(-s, s);
    assert(crate::fixed::fx_mul_s(0i64, 0i64) == 0i64);
    assert(crate::fixed::fx_mul_s(FX_ONE, FX_ONE) == FX_ONE);
    assert((-s) * s == (-s) * s);
    assert(crate::fixed::fx_mul_s((-FX_ONE) as i64, (-FX_ONE) as i64) == FX_ONE) by {
        assert(((-FX_ONE) as i64) as int * ((-FX_ONE) as i64) as int == s * s) by (nonlinear_arith)
            requires
                ((-FX_ONE) as i64) as int == -s,
                s == 65536,
        ;
    }
    let up = Vec3(0i64, FX_ONE, 0i64);
    let down = Vec3(0i64, (-FX_ONE) as i64, 0i64);
    assert(crate::vec3::sqlen_s(up) == FX_ONE);
    assert(crate::vec3::sqlen_s(down) == FX_ONE);
    assert(s * s < (s + 1) * (s + 1) && 0 <= s) by (nonlinear_arith)
        requires
            s == 65536,
    ;
    crate::fixed::lemma_sqrt_floor_unique(s * s, s);
    assert(crate::vec3::len_s(up) == FX_ONE);
    assert(crate::vec3::len_s(down) == FX_ONE);
    assert(crate::fixed::tdiv(0 * s, s) == 0) by {
        lemma_tdiv_multiple(0, s);
        assert(0 * s == 0 * s);
    }
    assert(unit_s(up) == up);
    assert(unit_s(down) == down);
    assert(crate::fixed::fx_mul_s(FX_HALF, 131072i64) == FX_ONE) by {
        lemma_tdiv_multiple(65536, s);
        assert(32768 * 131072 == 65536 * 65536) by (nonlinear_arith);
    }
    assert(crate::fixed::fx_mul_s(FX_HALF, 0i64) == 0i64);
    assert(crate::fixed::fx_mul_s(FX_ONE, 0i64) == 0i64);
    assert(crate::fixed::fx_mul_s(FX_HALF, FX_ONE) == FX_HALF) by {
        lemma_tdiv_multiple(32768, s);
    }
    assert(crate::fixed::fx_mul_s(45875i64, FX_ONE) == 45875i64) by {
        lemma_tdiv_multiple(45875, s);
    }
    assert(crate::fixed::fx_mul_s(FX_ONE, FX_ONE) == FX_ONE);
    let tup = crate::fixed::fx_mul_s(FX_HALF, crate::fixed::fx_add_s(FX_ONE, FX_ONE));
    assert(tup == FX_ONE);
    assert(background_s(Ray { origin: o, direction: up }) == sky_s());
    let tdown = crate::fixed::fx_mul_s(
        FX_HALF,
        crate::fixed::fx_add_s((-FX_ONE) as i64, FX_ONE),
    );
    assert(tdown == 0i64);
    assert(background_s(Ray { origin: o, direction: down }) == white_s());
}

/// A scalar in range is unchanged by multiplication with one.
proof fn lemma_one_mul(x: i64)
    requires
        fx_in_range(x as int),
    ensures
        fx_mul_s(FX_ONE, x) == x,
{
    assert(fx_mul_s(FX_ONE, x) == x) by (nonlinear_arith)
        requires
            -(FX_MAX as int) <= x as int <= FX_MAX as int,
    ;
}

/// A vector with components in range is unchanged by attenuation with white.
proof fn lemma_white_mul(c: Vec3)
    requires
        fx_in_range(c.0 as int),
        fx_in_range(c.1 as int),
        fx_in_range(c.2 as int),
    ensures
        v_mul_s(white_s(), c) == c,
{
    lemma_one_mul(c.0);
    lemma_one_mul(c.1);
    lemma_one_mul(c.2);
}

/// The background color's components are representable.
proof fn lemma_background_in_range(r: Ray)
    ensures
        fx_in_range(background_s(r).0 as int),
        fx_in_range(background_s(r).1 as int),
        fx_in_range(background_s(r).2 as int),
{
}

/// The background a missed ray sees.
pub fn background(r: &Ray) -> (c: Vec3)
    ensures
        c == background_s(*r),
{
    let t: i64 = crate::fixed::fx_mul(FX_HALF, fx_add(r.direction.unit_vector().1, FX_ONE));
    Vec3::new(FX_ONE, FX_ONE, FX_ONE).scale(crate::fixed::fx_sub(FX_ONE, t)).add(
        &Vec3::new(FX_HALF, 45875, FX_ONE).scale(t),
    )
}

/// The radiance the integrator gathers under the deterministic `Center`
/// source, carrying the attenuation product `acc` and a remaining bounce
/// budget: a miss yields `acc` times the background; a hit with no budget
/// left, or an absorption, yields black; otherwise the center-draw scatter
/// result attenuates `acc` and the walk continues along the scattered ray.
pub open spec fn color_center_rec(acc: Vec3, r: Ray, world: Seq<Sphere>, budget: nat) -> Vec3
    decreases budget,
{
    match scene_hit_s(world, r, T_MIN_FX, FX_MAX) {
        None => v_mul_s(acc, background_s(r)),
        Some(h) => if budget == 0 {
            Vec3(0i64, 0i64, 0i64)
        } else {
            match scatter_center_s(h.material, r, h) {
                Some(pair) => color_center_rec(
                    v_mul_s(acc, pair.0),
                    pair.1,
                    world,
                    (budget - 1) as nat,
                ),
                None => Vec3(0i64, 0i64, 0i64),
            }
        },
    }
}

/// What `color` returns under the `Center` source: the walk above, started
/// from white with the bounces that remain below the depth cap.
pub open spec fn color_center_s(r: Ray, world: Seq<Sphere>, depth: i32) -> Vec3 {
    let budget: nat = if depth < MAX_DEPTH {
        (MAX_DEPTH - depth) as nat
    } else {
        0
    };
    color_center_rec(white_s(), r, world, budget)
}

/// The radiance gathered along a ray: repeatedly find the nearest hit above
/// the shadow epsilon, ask the material to scatter, and multiply the
/// attenuations together (left to right, starting from white) until a miss
/// reaches the background, or an absorption or the bounce cap yields black.
/// A ray that misses at once returns exactly the background; a hit at or
/// beyond the cap returns exactly black.
#[verifier::rlimit(80)]
pub fn color(r: &Ray, world: &[Sphere], depth: i32, rs: &mut RandomSource) -> (res: Vec3)
    ensures
        scene_hit_s(world@, *r, T_MIN_FX, FX_MAX) is None ==> res == background_s(*r),
        world@.len() == 0 ==> res == background_s(*r),
        depth >= MAX_DEPTH && scene_hit_s(world@, *r, T_MIN_FX, FX_MAX) is Some ==> res == Vec3(
            0i64,
            0i64,
            0i64,
        ),
        (*old(rs)) is Center ==> res == color_center_s(*r, world@, depth),
        (*old(rs)) is Center ==> (*final(rs)) is Center,
        (*old(rs)) is Device ==> (*final(rs)) is Device,
{
    let ghost wc: bool = (*rs) is Center;
    let ghost wd: bool = (*rs) is Device;
    let mut ray: Ray = *r;
    let mut dep: i32 = if depth < MAX_DEPTH {
        depth
    } else {
        MAX_DEPTH
    };
    let mut acc: Vec3 = Vec3(FX_ONE, FX_ONE, FX_ONE);
    let ghost mut first: bool = true;
    loop
        invariant
            dep <= MAX_DEPTH,
            wc == ((*old(rs)) is Center),
            wd == ((*old(rs)) is Device),
            wc ==> (*rs) is Center,
            wd ==> (*rs) is Device,
            first ==> ray == *r && acc == Vec3(FX_ONE, FX_ONE, FX_ONE),
            first && depth >= MAX_DEPTH ==> dep == MAX_DEPTH,
            !first ==> scene_hit_s(world@, *r, T_MIN_FX, FX_MAX) is Some,
            !first ==> depth < MAX_DEPTH,
            !first ==> world@.len() > 0,
            wc ==> color_center_s(*r, world@, depth) == color_center_rec(
                acc,
                ray,
                world@,
                (MAX_DEPTH - dep) as nat,
            ),
        decreases MAX_DEPTH - dep,
    {
        match hit(world, &ray, T_MIN_FX, FX_MAX) {
            Some(rec) => {
                proof {
                    if first {
                        assert(scene_hit_s(world@, *r, T_MIN_FX, FX_MAX) is Some);
                        assert(world@.len() > 0);
                    }
                }
                if dep < MAX_DEPTH {
                    match rec.material.scatter(&ray, &rec, rs) {
                        Some((attenuation, scattered)) => {
                            acc = acc.mul(&attenuation);
                            ray = scattered;
                            dep = dep + 1;
                            proof {
                                first = false;
                            }
                        },
                        None => {
                            return Vec3(0, 0, 0);
                        },
                    }
                } else {
                    return Vec3(0, 0, 0);
                }
            },
            None => {
                let bg = background(&ray);
                let out = acc.mul(&bg);
                proof {
                    if first {
                        lemma_background_in_range(ray);
                        lemma_white_mul(bg);
                    }
                }
                return out;
            },
        }
    }
}

/// The big matte ground sphere.
pub open spec fn ground_sphere_s() -> Sphere {
    Sphere {
        center: Vec3(0, (-65536000) as i64, 0),
        radius: 65536000,
        material: Material::Lambertian(Lambertian { albedo: Vec3(FX_HALF, FX_HALF, FX_HALF) }),
    }
}

/// The central glass hero sphere.
pub open spec fn hero_glass_s() -> Sphere {
    Sphere {
        center: Vec3(0, FX_ONE, 0),
        radius: FX_ONE,
        material: Material::Dielectric(Dielectric { ref_idx: 98304 }),
    }
}

/// The matte hero sphere.
pub open spec fn hero_matte_s() -> Sphere {
    Sphere {
        center: Vec3((-262144) as i64, FX_ONE, 0),
        radius: FX_ONE,
        material: Material::Lambertian(Lambertian { albedo: Vec3(26214, 13107, 6553) }),
    }
}

/// The mirror hero sphere.
pub open spec fn hero_metal_s() -> Sphere {
    Sphere {
        center: Vec3(262144, FX_ONE, 0),
        radius: FX_ONE,
        material: Material::Metal(Metal { albedo: Vec3(45875, 39321, 32768), fuzz: 0 }),
    }
}

/// What the scene builder may draw for a small grid sphere: a matte surface
/// with albedo channels below one, a metal with albedo in the upper half and
/// fuzz below one half, or glass with index one and a half.
pub open spec fn grid_material_ok(m: Material) -> bool {
    match m {
        Material::Lambertian(l) => 0 <= l.albedo.0 < FX_ONE && 0 <= l.albedo.1 < FX_ONE && 0
            <= l.albedo.2 < FX_ONE,
        Material::Metal(mt) => FX_HALF <= mt.albedo.0 < FX_ONE && FX_HALF <= mt.albedo.1 < FX_ONE
            && FX_HALF <= mt.albedo.2 < FX_ONE && 0 <= mt.fuzz < FX_HALF,
        Material::Dielectric(dl) => dl.ref_idx == 98304,
    }
}

/// The product of two channels below one stays below one.
proof fn lemma_unit_product_range(a: i64, b: i64)
    requires
        0 <= a < FX_ONE,
        0 <= b < FX_ONE,
    ensures
        0 <= fx_mul_s(a, b) < FX_ONE,
{
    let p = a as int * b as int;
    assert(0 <= p <= 65535 * 65535) by (nonlinear_arith)
        requires
            0 <= a as int <= 65535,
            0 <= b as int <= 65535,
            p == a as int * b as int,
    ;
    lemma_div_pos_is_pos(p, FX_ONE as int);
    lemma_div_is_ordered(p, 65535int * 65535, FX_ONE as int);
}

/// Build the example scene: the ground sphere, a grid of small spheres with
/// randomly drawn materials (cells too close to the metal hero are left
/// empty), and the three hero spheres at the end.  Every sphere has a
/// positive radius, and the scene holds at most the ground, one sphere per
/// grid cell, and the heroes.
pub fn random_scene(rs: &mut RandomSource) -> (world: Vec<Sphere>)
    ensures
        4 <= world@.len() <= 488,
        world@[0] == ground_sphere_s(),
        world@[world@.len() - 3] == hero_glass_s(),
        world@[world@.len() - 2] == hero_matte_s(),
        world@[world@.len() - 1] == hero_metal_s(),
        forall|i: int| 0 <= i < world@.len() ==> (#[trigger] world@[i]).radius > 0,
        forall|i: int|
            1 <= i < world@.len() - 3 ==> (#[trigger] world@[i]).radius == 13107 && world@[i].center.1
                == 13107 && grid_material_ok(world@[i].material),
        (*old(rs)) is Center ==> (*final(rs)) is Center,
        (*old(rs)) is Device ==> (*final(rs)) is Device,
{
    let ghost wc: bool = (*rs) is Center;
    let ghost wd: bool = (*rs) is Device;
    let mut list: Vec<Sphere> = Vec::new();
    list.push(
        Sphere::new(
            Vec3(0, -65536000, 0),
            65536000,
            Material::Lambertian(Lambertian { albedo: Vec3(FX_HALF, FX_HALF, FX_HALF) }),
        ),
    );
    let mut a: i32 = -11;
    while a < 11
        invariant
            wc ==> (*rs) is Center,
            wd ==> (*rs) is Device,
            list@.len() >= 1,
            list@[0] == ground_sphere_s(),
            forall|i: int| 0 <= i < list@.len() ==> (#[trigger] list@[i]).radius > 0,
            forall|i: int|
                1 <= i < list@.len() ==> (#[trigger] list@[i]).radius == 13107
                    && list@[i].center.1 == 13107 && grid_material_ok(list@[i].material),
            -11 <= a <= 11,
            list@.len() <= 1 + (a + 11) * 22,
        decreases 11 - a,
    {
        let mut b: i32 = -11;
        while b < 11
            invariant
                wc ==> (*rs) is Center,
                wd ==> (*rs) is Device,
                list@.len() >= 1,
                list@[0] == ground_sphere_s(),
                forall|i: int| 0 <= i < list@.len() ==> (#[trigger] list@[i]).radius > 0,
                forall|i: int|
                    1 <= i < list@.len() ==> (#[trigger] list@[i]).radius == 13107
                        && list@[i].center.1 == 13107 && grid_material_ok(list@[i].material),
                -11 <= a < 11,
                -11 <= b <= 11,
                list@.len() <= 1 + (a + 11) * 22 + (b + 11),
            decreases 11 - b,
        {
            let choose_mat: i64 = rs.draw(0, FX_ONE);
            let cx: i64 = fx_add(
                fx_of_int(a as i64),
                crate::fixed::fx_mul(58982, rs.draw(0, FX_ONE)),
            );
            let cz: i64 = fx_add(
                fx_of_int(b as i64),
                crate::fixed::fx_mul(58982, rs.draw(0, FX_ONE)),
            );
            let center = Vec3(cx, 13107, cz);
            if center.sub(&Vec3(262144, 13107, 0)).length() > 58982 {
                if choose_mat < 52428 {
                    let c0 = rs.draw(0, FX_ONE);
                    let c1 = rs.draw(0, FX_ONE);
                    let c2 = rs.draw(0, FX_ONE);
                    let c3 = rs.draw(0, FX_ONE);
                    let c4 = rs.draw(0, FX_ONE);
                    let c5 = rs.draw(0, FX_ONE);
                    let albedo = Vec3(
                        crate::fixed::fx_mul(c0, c1),
                        crate::fixed::fx_mul(c2, c3),
                        crate::fixed::fx_mul(c4, c5),
                    );
                    proof {
                        lemma_unit_product_range(c0, c1);
                        lemma_unit_product_range(c2, c3);
                        lemma_unit_product_range(c4, c5);
                    }
                    list.push(
                        Sphere::new(center, 13107, Material::Lambertian(Lambertian { albedo })),
                    );
                } else if choose_mat < 62259 {
                    let albedo = Vec3(
                        rs.draw(FX_HALF, FX_ONE),
                        rs.draw(FX_HALF, FX_ONE),
                        rs.draw(FX_HALF, FX_ONE),
                    );
                    let fuzz: i64 = rs.draw(0, FX_HALF);
                    list.push(Sphere::new(center, 13107, Material::Metal(Metal { albedo, fuzz })));
                } else {
                    list.push(
                        Sphere::new(
                            center,
                            13107,
                            Material::Dielectric(Dielectric { ref_idx: 98304 }),
                        ),
                    );
                }
            }
            b = b + 1;
        }
        a = a + 1;
    }
    list.push(
        Sphere::new(Vec3(0, FX_ONE, 0), FX_ONE, Material::Dielectric(Dielectric { ref_idx: 98304 })),
    );
    list.push(
        Sphere::new(
            Vec3(-262144, FX_ONE, 0),
            FX_ONE,
            Material::Lambertian(Lambertian { albedo: Vec3(26214, 13107, 6553) }),
        ),
    );
    list.push(
        Sphere::new(
            Vec3(262144, FX_ONE, 0),
            FX_ONE,
            Material::Metal(Metal { albedo: Vec3(45875, 39321, 32768), fuzz: 0 }),
        ),
    );
    list
}

/// Every byte of a sequence is ASCII.
pub open spec fn all_ascii(s: Seq<u8>) -> bool {
    forall|k: int| 0 <= k < s.len() ==> #[trigger] s[k] < 128
}

/// ASCII is preserved by concatenation.
proof fn lemma_all_ascii_concat(a: Seq<u8>, b: Seq<u8>)
    requires
        all_ascii(a),
        all_ascii(b),
    ensures
        all_ascii(a + b),
{
    assert forall|k: int| 0 <= k < (a + b).len() implies #[trigger] (a + b)[k] < 128 by {
        if k < a.len() {
            assert((a + b)[k] == a[k]);
        } else {
            assert((a + b)[k] == b[k - a.len()]);
        }
    }
}

/// Decimal digits are ASCII.
proof fn lemma_dec_all_ascii(n: int)
    requires
        n >= 0,
    ensures
        all_ascii(crate::ppm::dec_u8s(n)),
{
    lemma_dec_ascii(n);
}

/// A pixel row is ASCII.
proof fn lemma_pixel_line_ascii(r: int, g: int, b: int)
    requires
        r >= 0,
        g >= 0,
        b >= 0,
    ensures
        all_ascii(pixel_line_s(r, g, b)),
{
    lemma_dec_all_ascii(r);
    lemma_dec_all_ascii(g);
    lemma_dec_all_ascii(b);
    lemma_all_ascii_concat(crate::ppm::dec_u8s(r), seq![32u8]);
    lemma_all_ascii_concat(crate::ppm::dec_u8s(r) + seq![32u8], crate::ppm::dec_u8s(g));
    lemma_all_ascii_concat(crate::ppm::dec_u8s(r) + seq![32u8] + crate::ppm::dec_u8s(g), seq![32u8]);
    lemma_all_ascii_concat(
        crate::ppm::dec_u8s(r) + seq![32u8] + crate::ppm::dec_u8s(g) + seq![32u8],
        crate::ppm::dec_u8s(b),
    );
    lemma_all_ascii_concat(
        crate::ppm::dec_u8s(r) + seq![32u8] + crate::ppm::dec_u8s(g) + seq![32u8]
            + crate::ppm::dec_u8s(b),
        seq![10u8],
    );
}

/// The header is ASCII.
proof fn lemma_header_ascii(nx: int, ny: int)
    requires
        nx >= 0,
        ny >= 0,
    ensures
        all_ascii(header_bytes_s(nx, ny)),
{
    lemma_dec_all_ascii(nx);
    lemma_dec_all_ascii(ny);
    lemma_all_ascii_concat(seq![80u8, 51u8, 10u8], crate::ppm::dec_u8s(nx));
    lemma_all_ascii_concat(seq![80u8, 51u8, 10u8] + crate::ppm::dec_u8s(nx), seq![32u8]);
    lemma_all_ascii_concat(
        seq![80u8, 51u8, 10u8] + crate::ppm::dec_u8s(nx) + seq![32u8],
        crate::ppm::dec_u8s(ny),
    );
    lemma_all_ascii_concat(
        seq![80u8, 51u8, 10u8] + crate::ppm::dec_u8s(nx) + seq![32u8] + crate::ppm::dec_u8s(ny),
        seq![10u8, 50u8, 53u8, 53u8, 10u8],
    );
}

/// The fixed camera `draw` renders through, for a given image shape.
pub open spec fn draw_camera_s(nx: i32, ny: i32) -> Camera {
    camera_new_s(
        Vec3(851968, 131072, 196608),
        Vec3(0i64, 0i64, 0i64),
        Vec3(0i64, FX_ONE, 0i64),
        1310720,
        fx_div_s(fx_of_int_s(nx as i64), fx_of_int_s(ny as i64)),
        6553,
        655360,
    )
}

/// `n` repeated saturating additions of one color onto black, as the sample
/// loop accumulates them.
pub open spec fn repeat_add_s(c: Vec3, n: nat) -> Vec3
    decreases n,
{
    if n == 0 {
        Vec3(0i64, 0i64, 0i64)
    } else {
        v_add_s(repeat_add_s(c, (n - 1) as nat), c)
    }
}

/// One radiance sample of pixel `(i, j)` under the `Center` source: the
/// sub-pixel jitters are the midpoints and the lens draw is the disk center.
pub open spec fn sample_center_s(
    cam: Camera,
    world: Seq<Sphere>,
    nx: i32,
    ny: i32,
    i: i32,
    j: i32,
) -> Vec3 {
    let u = fx_div_s(
        fx_add_s(fx_of_int_s(i as i64), midpoint_s(0, FX_ONE)),
        fx_of_int_s(nx as i64),
    );
    let v = fx_div_s(
        fx_add_s(fx_of_int_s(j as i64), midpoint_s(0, FX_ONE)),
        fx_of_int_s(ny as i64),
    );
    color_center_s(get_ray_s(cam, u, v, Vec3(0i64, 0i64, 0i64)), world, 0)
}

/// The averaged color of pixel `(i, j)` under the `Center` source.
pub open spec fn pixel_color_center_s(
    cam: Camera,
    world: Seq<Sphere>,
    nx: i32,
    ny: i32,
    ns: i32,
    i: i32,
    j: i32,
) -> Vec3 {
    let n: nat = if ns > 0 {
        ns as nat
    } else {
        0
    };
    v_div_s(
        repeat_add_s(sample_center_s(cam, world, nx, ny, i, j), n),
        fx_of_int_s(ns as i64),
    )
}

/// The quantized channels of pixel `(i, j)` under the `Center` source.
pub open spec fn pixel_center_s(
    world: Seq<Sphere>,
    nx: i32,
    ny: i32,
    ns: i32,
    i: i32,
    j: i32,
) -> (int, int, int) {
    let col = pixel_color_center_s(draw_camera_s(nx, ny), world, nx, ny, ns, i, j);
    (quantize_s(col.0), quantize_s(col.1), quantize_s(col.2))
}

/// The whole pixel list under the `Center` source: rows from the image top
/// (`j = ny - 1`) down to the bottom, columns left to right within a row.
pub open spec fn render_center_s(world: Seq<Sphere>, nx: i32, ny: i32, ns: i32) -> Seq<
    (int, int, int),
> {
    Seq::new(
        (nx as int * ny as int) as nat,
        |k: int|
            pixel_center_s(
                world,
                nx,
                ny,
                ns,
                (k % (nx as int)) as i32,
                (ny - 1 - k / (nx as int)) as i32,
            ),
    )
}

/// Pixel `(i, j)` sits at position `(ny - 1 - j) * nx + i` of the rendered
/// pixel list, and that entry is its own quantized color.
proof fn lemma_render_index(world: Seq<Sphere>, nx: i32, ny: i32, ns: i32, i: i32, j: i32)
    requires
        0 <= i < nx,
        0 <= j < ny,
    ensures
        ({
            let k = (ny - 1 - j) as int * nx as int + i as int;
            0 <= k < render_center_s(world, nx, ny, ns).len() && render_center_s(
                world,
                nx,
                ny,
                ns,
            )[k] == pixel_center_s(world, nx, ny, ns, i, j)
        }),
{
    let k = (ny - 1 - j) as int * nx as int + i as int;
    assert(0 <= k && k < nx as int * ny as int) by (nonlinear_arith)
        requires
            0 <= i as int && (i as int) < (nx as int),
            0 <= j as int && (j as int) < (ny as int),
            k == (ny - 1 - j) as int * nx as int + i as int,
    ;
    lemma_fundamental_div_mod_converse(k, nx as int, (ny - 1 - j) as int, i as int);
    assert(k % (nx as int) == i as int);
    assert(k / (nx as int) == (ny - 1 - j) as int);
    assert((k % (nx as int)) as i32 == i);
    assert((ny - 1 - k / (nx as int)) as i32 == j);
}

/// Average `ns` jittered radiance samples of pixel `(i, j)` through the
/// camera; under the `Center` source the result is pinned.
fn sample_pixel(
    camera: &Camera,
    world: &[Sphere],
    nx: i32,
    ny: i32,
    ns: i32,
    i: i32,
    j: i32,
    rs: &mut RandomSource,
) -> (col: Vec3)
    ensures
        (*old(rs)) is Center ==> col == pixel_color_center_s(*camera, world@, nx, ny, ns, i, j),
        (*old(rs)) is Center ==> (*final(rs)) is Center,
        (*old(rs)) is Device ==> (*final(rs)) is Device,
{
    let ghost wc: bool = (*rs) is Center;
    let ghost wd: bool = (*rs) is Device;
    let mut col = Vec3::default();
    let mut s: i32 = 0;
    while s < ns
        invariant
            wc == ((*old(rs)) is Center),
            wd == ((*old(rs)) is Device),
            wc ==> (*rs) is Center,
            wd ==> (*rs) is Device,
            0 <= s,
            s <= ns || s == 0,
            wc ==> col == repeat_add_s(sample_center_s(*camera, world@, nx, ny, i, j), s as nat),
        decreases ns - s,
    {
        let u: i64 = fx_div(fx_add(fx_of_int(i as i64), rs.draw(0, FX_ONE)), fx_of_int(nx as i64));
        let v: i64 = fx_div(fx_add(fx_of_int(j as i64), rs.draw(0, FX_ONE)), fx_of_int(ny as i64));
        let ray = camera.get_ray(u, v, rs);
        let sample = color(&ray, world, 0, rs);
        proof {
            if wc {
                assert(sample == sample_center_s(*camera, world@, nx, ny, i, j));
            }
        }
        col = col.add(&sample);
        s = s + 1;
    }
    proof {
        if wc {
            let n: nat = if ns > 0 {
                ns as nat
            } else {
                0
            };
            assert(col == repeat_add_s(sample_center_s(*camera, world@, nx, ny, i, j), n));
        }
    }
    col.div(fx_of_int(ns as i64))
}

/// Render the scene to the ASCII pixel-map text: for every pixel, from the
/// top row down and left to right, average `ns` jittered samples through the
/// fixed camera (eye at `(13, 2, 3)` looking at the origin, vertical field of
/// view of twenty degrees, aperture one tenth, focus distance ten),
/// gamma-correct, quantize, and emit one row of text per pixel.  The result
/// is exactly the header followed by `nx * ny` rows of three decimal
/// channels, each within `[0, 255]`; under the `Center` source it is exactly
/// the rendered pixel list.
#[verifier::rlimit(100)]
pub fn draw(rs: &mut RandomSource, nx: i32, ny: i32, ns: i32, world: &[Sphere]) -> (img: String)
    requires
        0 <= nx,
        0 <= ny,
    ensures
        exists|pix: Seq<(int, int, int)>|
            #![trigger body_of(pix)]
            pix.len() == nx as int * ny as int && channels_ok(pix) && img@ == chars_of_bytes(
                header_bytes_s(nx as int, ny as int) + body_of(pix),
            ),
        (*old(rs)) is Center ==> img@ == chars_of_bytes(
            header_bytes_s(nx as int, ny as int) + body_of(render_center_s(world@, nx, ny, ns)),
        ),
        (*old(rs)) is Center ==> (*final(rs)) is Center,
        (*old(rs)) is Device ==> (*final(rs)) is Device,
{
    let ghost wc: bool = (*rs) is Center;
    let ghost wd: bool = (*rs) is Device;
    let camera = Camera::new(
        &Vec3(851968, 131072, 196608),
        &Vec3(0, 0, 0),
        &Vec3(0, FX_ONE, 0),
        1310720,
        fx_div(fx_of_int(nx as i64), fx_of_int(ny as i64)),
        6553,
        655360,
    );
    let mut out: Vec<u8> = Vec::new();
    push_header(&mut out, nx as u32, ny as u32);
    let ghost mut pix: Seq<(int, int, int)> = Seq::empty();
    proof {
        lemma_header_ascii(nx as int, ny as int);
        assert(out@ =~= header_bytes_s(nx as int, ny as int) + body_of(pix));
    }
    let mut j: i32 = ny;
    while j > 0
        invariant
            0 <= j <= ny,
            0 <= nx,
            wc ==> (*rs) is Center,
            wd ==> (*rs) is Device,
            out@ == header_bytes_s(nx as int, ny as int) + body_of(pix),
            channels_ok(pix),
            pix.len() == (ny - j) as int * nx as int,
            all_ascii(out@),
            camera == draw_camera_s(nx, ny),
            wc ==> pix == render_center_s(world@, nx, ny, ns).take(pix.len() as int),
        decreases j,
    {
        j = j - 1;
        let mut i: i32 = 0;
        while i < nx
            invariant
                0 <= i <= nx,
                0 <= j < ny,
                wc ==> (*rs) is Center,
                wd ==> (*rs) is Device,
                out@ == header_bytes_s(nx as int, ny as int) + body_of(pix),
                channels_ok(pix),
                pix.len() == (ny - 1 - j) as int * nx as int + i as int,
                all_ascii(out@),
                camera == draw_camera_s(nx, ny),
                wc ==> pix == render_center_s(world@, nx, ny, ns).take(pix.len() as int),
            decreases nx - i,
        {
            let col = sample_pixel(&camera, world, nx, ny, ns, i, j, rs);
            let r8: u8 = quantize(col.0);
            let g8: u8 = quantize(col.1);
            let b8: u8 = quantize(col.2);
            push_pixel(&mut out, r8, g8, b8);
            proof {
                lemma_quantize_range(col.0);
                lemma_quantize_range(col.1);
                lemma_quantize_range(col.2);
                let t = (r8 as int, g8 as int, b8 as int);
                lemma_body_push(pix, t);
                lemma_pixel_line_ascii(r8 as int, g8 as int, b8 as int);
                lemma_all_ascii_concat(
                    header_bytes_s(nx as int, ny as int) + body_of(pix),
                    pixel_line_s(r8 as int, g8 as int, b8 as int),
                );
                assert(out@ =~= header_bytes_s(nx as int, ny as int) + body_of(pix.push(t)));
                if wc {
                    let all = render_center_s(world@, nx, ny, ns);
                    let k = pix.len() as int;
                    lemma_render_index(world@, nx, ny, ns, i, j);
                    assert(all[k] == pixel_center_s(world@, nx, ny, ns, i, j));
                    assert(t == all[k]);
                    assert(pix.push(t) =~= all.take(k + 1));
                }
                assert(channels_ok(pix.push(t))) by {
                    assert forall|q: int| 0 <= q < pix.push(t).len() implies 0 <= #[trigger] pix.push(
                        t,
                    )[q].0 <= 255 && 0 <= pix.push(t)[q].1 <= 255 && 0 <= pix.push(t)[q].2
                        <= 255 by {
                        if q < pix.len() {
                            assert(pix.push(t)[q] == pix[q]);
                        } else {
                            assert(pix.push(t)[q] == t);
                        }
                    }
                }
                pix = pix.push(t);
            }
            i = i + 1;
        }
        proof {
            assert((ny - 1 - j) as int * nx as int + nx as int == (ny - j) as int * nx as int)
                by (nonlinear_arith);
        }
    }
    proof {
        assert((ny - 0) as int * nx as int == nx as int * ny as int) by (nonlinear_arith);
        if wc {
            let all = render_center_s(world@, nx, ny, ns);
            assert(all.take(all.len() as int) =~= all);
            assert(pix == all);
        }
    }
    ascii_string(out)
}

} // verus!
