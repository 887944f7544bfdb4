use ray_tracing::fixed::{FX_MAX, FX_ONE};
use ray_tracing::hit::HitRecord;
use ray_tracing::materials::{Lambertian, Material};
use ray_tracing::objects::{hit, Sphere};
use ray_tracing::ray::Ray;
use ray_tracing::vec3::Vec3;

const S: i64 = FX_ONE;

fn matte() -> Material {
    Material::Lambertian(Lambertian { albedo: Vec3(S / 2, S / 2, S / 2) })
}

#[test]
fn head_on_ray_enters_at_distance_minus_radius() {
    let sphere = Sphere::new(Vec3(5 * S, 0, 0), S, matte());
    let ray = Ray::new(Vec3(0, 0, 0), Vec3(S, 0, 0));
    let h: HitRecord = sphere.hit(&ray, 66, FX_MAX).expect("head-on ray must hit");
    assert_eq!(h.t, 4 * S);
    assert_eq!(h.p, Vec3(4 * S, 0, 0));
    assert_eq!(h.normal, Vec3(-S, 0, 0));
    assert_eq!(h.normal.length(), S);
}

#[test]
fn head_on_ray_exits_at_distance_plus_radius() {
    let sphere = Sphere::new(Vec3(5 * S, 0, 0), S, matte());
    let ray = Ray::new(Vec3(0, 0, 0), Vec3(S, 0, 0));
    // The near root 4 lies outside (5, far), so the far root 6 is taken.
    let h = sphere.hit(&ray, 5 * S, FX_MAX).expect("exit root must be found");
    assert_eq!(h.t, 6 * S);
    assert_eq!(h.p, Vec3(6 * S, 0, 0));
    assert_eq!(h.normal, Vec3(S, 0, 0));
}

#[test]
fn closest_approach_beyond_radius_misses() {
    let sphere = Sphere::new(Vec3(5 * S, 2 * S, 0), S, matte());
    let ray = Ray::new(Vec3(0, 0, 0), Vec3(S, 0, 0));
    assert!(sphere.hit(&ray, 66, FX_MAX).is_none());
}

#[test]
fn sphere_behind_the_origin_misses() {
    let sphere = Sphere::new(Vec3(-5 * S, 0, 0), S, matte());
    let ray = Ray::new(Vec3(0, 0, 0), Vec3(S, 0, 0));
    assert!(sphere.hit(&ray, 66, FX_MAX).is_none());
}

#[test]
fn accepted_hits_stay_strictly_inside_the_interval() {
    let spheres = [
        Sphere::new(Vec3(5 * S, 0, 0), S, matte()),
        Sphere::new(Vec3(10 * S, S / 3, 0), 2 * S, matte()),
        Sphere::new(Vec3(3 * S, -S / 2, S / 5), S / 2, matte()),
    ];
    let ray = Ray::new(Vec3(0, 0, 0), Vec3(S, 0, 0));
    let t_min: i64 = 66;
    let t_max: i64 = 9 * S;
    for s in spheres.iter() {
        if let Some(h) = s.hit(&ray, t_min, t_max) {
            assert!(t_min < h.t && h.t < t_max);
            let nl = h.normal.length();
            assert!((nl - S).abs() <= 8, "normal length {} too far from one", nl);
        }
    }
}

#[test]
fn scene_scan_returns_the_nearest_hit() {
    let world = vec![
        Sphere::new(Vec3(10 * S, 0, 0), S, matte()),
        Sphere::new(Vec3(5 * S, 0, 0), S, matte()),
    ];
    let ray = Ray::new(Vec3(0, 0, 0), Vec3(S, 0, 0));
    let h = hit(&world, &ray, 66, FX_MAX).expect("scene must be hit");
    assert_eq!(h.t, 4 * S);
    assert!(hit(&[], &ray, 66, FX_MAX).is_none());
}
