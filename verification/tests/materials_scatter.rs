use ray_tracing::fixed::FX_ONE;
use ray_tracing::materials::{reflect, refract, schlick};
use ray_tracing::hit::HitRecord;
use ray_tracing::materials::{Dielectric, Lambertian, Material, Metal};
use ray_tracing::random::RandomSource;
use ray_tracing::ray::Ray;
use ray_tracing::vec3::Vec3;

const S: i64 = FX_ONE;

fn record_at(p: Vec3, normal: Vec3, material: Material) -> HitRecord {
    HitRecord { t: S, p, normal, material }
}

#[test]
fn metal_with_zero_fuzz_is_deterministic() {
    // Reflecting (1, -1, 0) normalized off the normal (0, 1, 0) yields
    // (1, 1, 0) normalized, with no randomness involved.
    let metal = Metal { albedo: Vec3(S, S, S), fuzz: 0 };
    let ray_in = Ray::new(Vec3(-S, S, 0), Vec3(S, -S, 0));
    let rec = record_at(Vec3(0, 0, 0), Vec3(0, S, 0), Material::Metal(metal));
    let expected = Vec3(S, S, 0).unit_vector();
    let mut center = RandomSource::center();
    let (att, scattered) = metal.scatter(&ray_in, &rec, &mut center).expect("must scatter");
    assert_eq!(att, Vec3(S, S, S));
    assert_eq!(scattered.origin, Vec3(0, 0, 0));
    assert_eq!(scattered.direction, expected);
    assert_eq!(scattered.direction, Vec3(46341, 46341, 0));
    // The same result comes from the non-deterministic source.
    let mut device = RandomSource::device();
    let (_, again) = metal.scatter(&ray_in, &rec, &mut device).expect("must scatter");
    assert_eq!(again.direction, expected);
}

#[test]
fn metal_absorbs_rays_perturbed_into_the_surface() {
    let metal = Metal { albedo: Vec3(S, S, S), fuzz: 0 };
    let ray_in = Ray::new(Vec3(0, -S, 0), Vec3(0, S, 0));
    let rec = record_at(Vec3(0, 0, 0), Vec3(0, S, 0), Material::Metal(metal));
    let mut center = RandomSource::center();
    assert!(metal.scatter(&ray_in, &rec, &mut center).is_none());
}

#[test]
fn lambertian_always_scatters_from_the_hit_point() {
    let matte = Lambertian { albedo: Vec3(S / 2, S / 4, S / 8) };
    let ray_in = Ray::new(Vec3(0, 2 * S, 0), Vec3(0, -S, 0));
    let rec = record_at(Vec3(S, 0, 0), Vec3(0, S, 0), Material::Lambertian(matte));
    let mut center = RandomSource::center();
    let (att, scattered) = matte.scatter(&ray_in, &rec, &mut center).expect("always scatters");
    assert_eq!(att, Vec3(S / 2, S / 4, S / 8));
    assert_eq!(scattered.origin, Vec3(S, 0, 0));
    // Under the deterministic source the perturbation is the center, so the
    // outgoing direction is exactly the normal.
    assert_eq!(scattered.direction, Vec3(0, S, 0));
}

#[test]
fn dielectric_refracts_straight_through_at_normal_incidence() {
    let glass = Dielectric { ref_idx: 98304 };
    let ray_in = Ray::new(Vec3(0, 2 * S, 0), Vec3(0, -S, 0));
    let rec = record_at(Vec3(0, S, 0), Vec3(0, S, 0), Material::Dielectric(glass));
    let mut center = RandomSource::center();
    let (att, scattered) = glass.scatter(&ray_in, &rec, &mut center).expect("never absorbs");
    assert_eq!(att, Vec3(S, S, S));
    assert_eq!(scattered.origin, Vec3(0, S, 0));
    assert_eq!(scattered.direction, Vec3(0, -S, 0));
}

#[test]
fn dielectric_reflects_totally_at_grazing_exit() {
    let glass = Dielectric { ref_idx: 98304 };
    // Exiting the glass at a grazing angle: total internal reflection, so
    // only the mirror reflection is available.
    let ray_in = Ray::new(Vec3(-4 * S, -S, 0), Vec3(4 * S, S, 0));
    let rec = record_at(Vec3(0, 0, 0), Vec3(0, S, 0), Material::Dielectric(glass));
    let mut center = RandomSource::center();
    let (att, scattered) = glass.scatter(&ray_in, &rec, &mut center).expect("never absorbs");
    assert_eq!(att, Vec3(S, S, S));
    assert_eq!(scattered.direction, Vec3(4 * S, -S, 0));
}

#[test]
fn material_dispatch_matches_the_variants() {
    let metal = Metal { albedo: Vec3(S, S, S), fuzz: 0 };
    let mat = Material::Metal(metal);
    let ray_in = Ray::new(Vec3(-S, S, 0), Vec3(S, -S, 0));
    let rec = record_at(Vec3(0, 0, 0), Vec3(0, S, 0), mat);
    let mut center = RandomSource::center();
    let (_, through_enum) = mat.scatter(&ray_in, &rec, &mut center).expect("must scatter");
    let mut center2 = RandomSource::center();
    let (_, direct) = metal.scatter(&ray_in, &rec, &mut center2).expect("must scatter");
    assert_eq!(through_enum, direct);
}

#[test]
fn reflect_mirrors_about_the_normal() {
    let r = reflect(&Vec3(S, -S, 0), &Vec3(0, S, 0));
    assert_eq!(r, Vec3(S, S, 0));
}

#[test]
fn refract_passes_straight_through_at_normal_incidence() {
    let r = refract(&Vec3(0, -S, 0), &Vec3(0, S, 0), 43690);
    assert_eq!(r, Some(Vec3(0, -S, 0)));
}

#[test]
fn refract_signals_total_internal_reflection() {
    assert_eq!(refract(&Vec3(4 * S, S, 0), &Vec3(0, -S, 0), 98304), None);
}

#[test]
fn schlick_at_normal_incidence_is_the_base_reflectance() {
    assert_eq!(schlick(S, 98304), 2621);
}

#[test]
fn refract_offers_the_grazing_ray_at_zero_discriminant() {
    // Index ratio one, direction orthogonal to the normal: the Snell
    // discriminant is exactly zero, and refraction is still offered; only a
    // negative discriminant means total internal reflection.
    let r = refract(&Vec3(S, 0, 0), &Vec3(0, S, 0), S);
    assert_eq!(r, Some(Vec3(S, 0, 0)));
}

#[test]
fn metal_negative_fuzz_clamps_to_zero() {
    // Roughness is clamped into [0, 1], so a negative fuzz scatters like a
    // perfect mirror even under the non-deterministic source.
    let metal = Metal { albedo: Vec3(S, S, S), fuzz: -S };
    let ray_in = Ray::new(Vec3(-S, S, 0), Vec3(S, -S, 0));
    let rec = record_at(Vec3(0, 0, 0), Vec3(0, S, 0), Material::Metal(metal));
    let mut device = RandomSource::device();
    let (_, scattered) = metal.scatter(&ray_in, &rec, &mut device).expect("must scatter");
    assert_eq!(scattered.direction, Vec3(46341, 46341, 0));
}
