//! The camera: an orthonormal basis, a focus plane, and a lens disk.

use crate::fixed::{fx_div, fx_div_s, FX_ONE};
use crate::random::RandomSource;
use crate::ray::Ray;
use crate::trig::{rad, rad_s, tan, tan_s, FX_TWO_T};
use crate::vec3::{cross_s, dot_s, unit_s, v_add_s, v_scale_s, v_sub_s, Vec3};
use vstd::prelude::*;

verus! {

/// A camera built once from seven parameters, immutable afterwards.
#[derive(Clone, Copy, Debug, PartialEq, Eq, Structural)]
pub struct Camera {
    pub origin: Vec3,
    pub lower_left_corner: Vec3,
    pub horizontal: Vec3,
    pub vertical: Vec3,
    pub lens_radius: i64,
    pub u: Vec3,
    pub v: Vec3,
    pub w: Vec3,
}

/// The camera construction: a right-handed orthonormal basis from eye,
/// target and up hint; viewport corner and span vectors scaled by the focus
/// distance; half the aperture as lens radius.
pub open spec fn camera_new_s(
    look_from: Vec3,
    look_at: Vec3,
    v_up: Vec3,
    v_fov: i64,
    aspect: i64,
    aperture: i64,
    focus_dist: i64,
) -> Camera {
    let theta = rad_s(v_fov);
    let half_height = tan_s(fx_div_s(theta, FX_TWO_T));
    let half_width = crate::fixed::fx_mul_s(aspect, half_height);
    let lens_radius = fx_div_s(aperture, FX_TWO_T);
    let origin = look_from;
    let w = unit_s(v_sub_s(look_from, look_at));
    let u = unit_s(cross_s(v_up, w));
    let v = cross_s(w, u);
    let lower_left_corner = v_sub_s(
        v_sub_s(
            v_sub_s(origin, v_scale_s(v_scale_s(u, half_width), focus_dist)),
            v_scale_s(v_scale_s(v, half_height), focus_dist),
        ),
        v_scale_s(w, focus_dist),
    );
    let horizontal = v_scale_s(v_scale_s(v_scale_s(u, half_width), focus_dist), FX_TWO_T);
    let vertical = v_scale_s(v_scale_s(v_scale_s(v, half_height), focus_dist), FX_TWO_T);
    Camera { origin, lower_left_corner, horizontal, vertical, lens_radius, u, v, w }
}

/// A lens-disk sample: a point strictly inside the unit disk of the plane.
pub open spec fn in_unit_disk_s(v: Vec3) -> bool {
    dot_s(v, v) < FX_ONE && v.2 == 0
}

/// The ray a camera casts toward normalized image coordinates `(s, t)` when
/// the lens drew the disk point `rd`: the origin is offset over the lens
/// along `u` and `v`, the direction aims at the viewport target.
pub open spec fn get_ray_s(c: Camera, s: i64, t: i64, rd: Vec3) -> Ray {
    let scaled = v_scale_s(rd, c.lens_radius);
    let offset = v_add_s(v_scale_s(c.u, scaled.0), v_scale_s(c.v, scaled.1));
    Ray {
        origin: v_add_s(c.origin, offset),
        direction: v_sub_s(
            v_sub_s(
                v_add_s(
                    v_add_s(c.lower_left_corner, v_scale_s(c.horizontal, s)),
                    v_scale_s(c.vertical, t),
                ),
                c.origin,
            ),
            offset,
        ),
    }
}

/// Draw a point uniformly inside the open unit disk by rejection: two
/// coordinates uniform in `[-1, 1)`, retried until the squared length is
/// below one.  Each round accepts with probability about 0.79; the round
/// counter only makes termination provable, and if it were ever exhausted
/// the center (which lies in the disk) would be returned.  A `Center` source
/// accepts the center on the first round.
pub fn random_in_unit_disk(rs: &mut RandomSource) -> (v: Vec3)
    ensures
        in_unit_disk_s(v),
        (*old(rs)) is Center ==> v == Vec3(0i64, 0i64, 0i64),
        (*old(rs)) is Center ==> (*final(rs)) is Center,
        (*old(rs)) is Device ==> (*final(rs)) is Device,
{
    let ghost wc: bool = (*rs) is Center;
    let ghost wd: bool = (*rs) is Device;
    let mut v: Vec3 = Vec3(0, 0, 0);
    let mut accepted: bool = false;
    let mut rounds: u64 = 0;
    while !accepted && rounds < 1000000000
        invariant
            wc ==> (*rs) is Center,
            wd ==> (*rs) is Device,
            accepted ==> in_unit_disk_s(v),
            !accepted ==> v == Vec3(0i64, 0i64, 0i64),
            wc ==> v == Vec3(0i64, 0i64, 0i64),
        decreases 1000000000 - rounds,
    {
        rounds = rounds + 1;
        let x: i64 = rs.draw(-FX_ONE, FX_ONE);
        let y: i64 = rs.draw(-FX_ONE, FX_ONE);
        let cand = Vec3(x, y, 0);
        if Vec3::dot(&cand, &cand) < FX_ONE {
            v = cand;
            accepted = true;
        }
    }
    proof {
        if !accepted {
            assert(dot_s(Vec3(0i64, 0i64, 0i64), Vec3(0i64, 0i64, 0i64)) == 0);
        }
    }
    v
}

impl Camera {
    /// Build a camera from eye, target, up hint, vertical field of view in
    /// degrees, aspect ratio, aperture and focus distance.
    pub fn new(
        look_from: &Vec3,
        look_at: &Vec3,
        v_up: &Vec3,
        v_fov: i64,
        aspect: i64,
        aperture: i64,
        focus_dist: i64,
    ) -> (c: Camera)
        ensures
            c == camera_new_s(*look_from, *look_at, *v_up, v_fov, aspect, aperture, focus_dist),
    {
        let theta: i64 = rad(v_fov);
        let half_height: i64 = tan(fx_div(theta, FX_TWO_T));
        let half_width: i64 = crate::fixed::fx_mul(aspect, half_height);
        let lens_radius: i64 = fx_div(aperture, FX_TWO_T);
        let origin = *look_from;
        let w = look_from.sub(look_at).unit_vector();
        let u = Vec3::cross(v_up, &w).unit_vector();
        let v = Vec3::cross(&w, &u);
        let lower_left_corner = origin.sub(&u.scale(half_width).scale(focus_dist)).sub(
            &v.scale(half_height).scale(focus_dist),
        ).sub(&w.scale(focus_dist));
        let horizontal = u.scale(half_width).scale(focus_dist).scale(FX_TWO_T);
        let vertical = v.scale(half_height).scale(focus_dist).scale(FX_TWO_T);
        Camera { origin, lower_left_corner, horizontal, vertical, lens_radius, u, v, w }
    }

    /// The ray toward normalized image coordinates `(s, t)`, jittered over
    /// the lens disk for depth of field.
    pub fn get_ray(&self, s: i64, t: i64, rs: &mut RandomSource) -> (r: Ray)
        ensures
            exists|rd: Vec3| in_unit_disk_s(rd) && r == #[trigger] get_ray_s(*self, s, t, rd),
            (*old(rs)) is Center ==> r == get_ray_s(*self, s, t, Vec3(0i64, 0i64, 0i64)),
            (*old(rs)) is Center ==> (*final(rs)) is Center,
            (*old(rs)) is Device ==> (*final(rs)) is Device,
    {
        let rd_disk = random_in_unit_disk(rs);
        let rd = rd_disk.scale(self.lens_radius);
        let offset = self.u.scale(rd.0).add(&self.v.scale(rd.1));
        let r = Ray::new(
            self.origin.add(&offset),
            self.lower_left_corner.add(&self.horizontal.scale(s)).add(
                &self.vertical.scale(t),
            ).sub(&self.origin).sub(&offset),
        );
        proof {
            assert(r == get_ray_s(*self, s, t, rd_disk));
        }
        r
    }
}

} // verus!
