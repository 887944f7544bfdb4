use ray_tracing::color;
use ray_tracing::draw;
use ray_tracing::fixed::FX_ONE;
use ray_tracing::materials::{Material, Metal};
use ray_tracing::objects::Sphere;
use ray_tracing::random::RandomSource;
use ray_tracing::random_scene;
use ray_tracing::ray::Ray;
use ray_tracing::vec3::Vec3;

const S: i64 = FX_ONE;

#[test]
fn background_straight_up_is_exactly_sky_blue() {
    let ray = Ray::new(Vec3(0, 0, 0), Vec3(0, S, 0));
    let mut rs = RandomSource::center();
    let c = color(&ray, &[], 0, &mut rs);
    assert_eq!(c, Vec3(S / 2, 45875, S));
}

#[test]
fn background_straight_down_is_exactly_white() {
    let ray = Ray::new(Vec3(0, 0, 0), Vec3(0, -S, 0));
    let mut rs = RandomSource::center();
    let c = color(&ray, &[], 0, &mut rs);
    assert_eq!(c, Vec3(S, S, S));
}

#[test]
fn mirror_spheres_trap_the_ray_and_return_black() {
    // Two facing mirrors: the ray bounces between them until the bounce cap
    // and must terminate with black rather than recurse forever.
    let mirror = Material::Metal(Metal { albedo: Vec3(S, S, S), fuzz: 0 });
    let world = vec![
        Sphere::new(Vec3(5 * S, 0, 0), S, mirror),
        Sphere::new(Vec3(-5 * S, 0, 0), S, mirror),
    ];
    let ray = Ray::new(Vec3(0, 0, 0), Vec3(S, 0, 0));
    let mut rs = RandomSource::center();
    let c = color(&ray, &world, 0, &mut rs);
    assert_eq!(c, Vec3(0, 0, 0));
}

#[test]
fn depth_at_the_cap_returns_black_on_any_hit() {
    let mirror = Material::Metal(Metal { albedo: Vec3(S, S, S), fuzz: 0 });
    let world = vec![Sphere::new(Vec3(5 * S, 0, 0), S, mirror)];
    let ray = Ray::new(Vec3(0, 0, 0), Vec3(S, 0, 0));
    let mut rs = RandomSource::center();
    assert_eq!(color(&ray, &world, 50, &mut rs), Vec3(0, 0, 0));
}

#[test]
fn scene_builder_places_ground_and_heroes() {
    let mut rs = RandomSource::center();
    let world = random_scene(&mut rs);
    assert!(world.len() >= 4);
    assert_eq!(world[0].center, Vec3(0, -65536000, 0));
    assert_eq!(world[0].radius, 65536000);
    let n = world.len();
    assert_eq!(world[n - 3].center, Vec3(0, S, 0));
    assert_eq!(world[n - 2].center, Vec3(-4 * S, S, 0));
    assert_eq!(world[n - 1].center, Vec3(4 * S, S, 0));
    for s in world.iter() {
        assert!(s.radius > 0);
    }
}

#[test]
fn draw_emits_header_and_one_line_per_pixel() {
    let mut rs = RandomSource::center();
    let world = vec![
        Sphere::new(
            Vec3(0, -65536000, 0),
            65536000,
            Material::Metal(Metal { albedo: Vec3(S / 2, S / 2, S / 2), fuzz: 0 }),
        ),
    ];
    let img = draw(&mut rs, 2, 2, 1, &world);
    let mut lines = img.lines();
    assert_eq!(lines.next(), Some("P3"));
    assert_eq!(lines.next(), Some("2 2"));
    assert_eq!(lines.next(), Some("255"));
    let body: Vec<&str> = lines.collect();
    assert_eq!(body.len(), 4);
    for line in body {
        let parts: Vec<&str> = line.split(' ').collect();
        assert_eq!(parts.len(), 3);
        for p in parts {
            let v: i32 = p.parse().expect("channel must be a decimal");
            assert!((0..=255).contains(&v));
        }
    }
}

#[test]
fn draw_with_the_device_source_stays_well_formed() {
    let mut rs = RandomSource::device();
    let img = draw(&mut rs, 3, 2, 2, &[]);
    let lines: Vec<&str> = img.lines().collect();
    assert_eq!(lines.len(), 3 + 6);
    assert_eq!(lines[0], "P3");
    assert_eq!(lines[1], "3 2");
    assert_eq!(lines[2], "255");
}

#[test]
fn single_pixel_empty_scene_renders_the_exact_sky_text() {
    // One pixel, one centered sample, no geometry: the camera ray sees only
    // the background gradient, and the whole pixel map is determined.
    let mut rs = RandomSource::center();
    let img = draw(&mut rs, 1, 1, 1, &[]);
    assert_eq!(img, "P3\n1 1\n255\n227 239 255\n");
}

#[test]
fn scene_builder_grid_spheres_are_small_and_sane() {
    let mut rs = RandomSource::device();
    let world = random_scene(&mut rs);
    let n = world.len();
    for s in world[1..n - 3].iter() {
        assert_eq!(s.radius, 13107);
        assert_eq!(s.center.1, 13107);
        match s.material {
            Material::Lambertian(l) => {
                assert!((0..S).contains(&l.albedo.0));
                assert!((0..S).contains(&l.albedo.1));
                assert!((0..S).contains(&l.albedo.2));
            }
            Material::Metal(m) => {
                assert!((S / 2..S).contains(&m.albedo.0));
                assert!((0..S / 2).contains(&m.fuzz));
            }
            Material::Dielectric(d) => assert_eq!(d.ref_idx, 98304),
        }
    }
}

#[test]
fn center_render_is_reproducible() {
    // Two renders under the deterministic source agree exactly: the
    // contract pins both to the same rendered pixel list.
    let world = vec![
        Sphere::new(
            Vec3(0, -65536000, 0),
            65536000,
            Material::Metal(Metal { albedo: Vec3(S / 2, S / 2, S / 2), fuzz: 0 }),
        ),
    ];
    let mut first = RandomSource::center();
    let mut second = RandomSource::center();
    let a = draw(&mut first, 2, 2, 2, &world);
    let b = draw(&mut second, 2, 2, 2, &world);
    assert_eq!(a, b);
}
