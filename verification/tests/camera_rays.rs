use ray_tracing::camera::Camera;
use ray_tracing::fixed::FX_ONE;
use ray_tracing::random::RandomSource;
use ray_tracing::vec3::Vec3;

const S: i64 = FX_ONE;

#[test]
fn camera_builds_an_orthonormal_basis() {
    let cam = Camera::new(
        &Vec3(0, 0, 0),
        &Vec3(0, 0, -10 * S),
        &Vec3(0, S, 0),
        90 * S,
        S,
        S,
        10 * S,
    );
    assert_eq!(cam.w, Vec3(0, 0, S));
    assert_eq!(cam.u, Vec3(S, 0, 0));
    assert_eq!(cam.v, Vec3(0, S, 0));
    assert_eq!(cam.lens_radius, S / 2);
    assert_eq!(cam.origin, Vec3(0, 0, 0));
}

#[test]
fn center_sample_aims_through_the_viewport_middle() {
    let cam = Camera::new(
        &Vec3(0, 0, 0),
        &Vec3(0, 0, -10 * S),
        &Vec3(0, S, 0),
        90 * S,
        S,
        S,
        10 * S,
    );
    let mut rs = RandomSource::center();
    let ray = cam.get_ray(S / 2, S / 2, &mut rs);
    // The deterministic source draws the lens center, so the origin is the
    // eye and the corner and span terms cancel exactly: the ray points down
    // the viewing axis to the focus plane.
    assert_eq!(ray.origin, Vec3(0, 0, 0));
    assert_eq!(ray.direction, Vec3(0, 0, -10 * S));
}
