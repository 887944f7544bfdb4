use ray_tracing::fixed::FX_ONE;
use ray_tracing::vec3::Vec3;

const S: i64 = FX_ONE;

#[test]
fn add_sub_mul_are_componentwise() {
    let a = Vec3::new(S, 2 * S, 3 * S);
    let b = Vec3::new(4 * S, 5 * S, 6 * S);
    assert_eq!(a.add(&b), Vec3(5 * S, 7 * S, 9 * S));
    assert_eq!(b.sub(&a), Vec3(3 * S, 3 * S, 3 * S));
    assert_eq!(a.mul(&b), Vec3(4 * S, 10 * S, 18 * S));
    assert_eq!(a.scale(2 * S), Vec3(2 * S, 4 * S, 6 * S));
    assert_eq!(b.div(2 * S), Vec3(2 * S, 5 * S / 2, 3 * S));
}

#[test]
fn squared_length_and_dot_exact() {
    let a = Vec3::new(3 * S, 4 * S, 0);
    assert_eq!(a.squared_length(), 25 * S);
    assert_eq!(a.length(), 5 * S);
    let b = Vec3::new(S, 2 * S, 3 * S);
    assert_eq!(Vec3::dot(&a, &b), 11 * S);
}

#[test]
fn unit_vector_of_axis_is_exact() {
    let v = Vec3::new(5 * S, 0, 0);
    assert_eq!(v.unit_vector(), Vec3(S, 0, 0));
    assert_eq!(v.unit_vector().length(), S);
    let w = Vec3::new(0, 0, -7 * S);
    assert_eq!(w.unit_vector(), Vec3(0, 0, -S));
}

#[test]
fn unit_vector_length_is_one_within_epsilon() {
    // For any non-zero vector the normalized length is one up to a few
    // fixed-point ulps.
    let cases = [
        Vec3::new(3 * S, 4 * S, 0),
        Vec3::new(S, S, S),
        Vec3::new(-2 * S, 7 * S, 3 * S),
        Vec3::new(12345, 65000, -90000),
        Vec3::new(10 * S, -S / 3, S / 7),
    ];
    for v in cases.iter() {
        let len = v.unit_vector().length();
        assert!((len - S).abs() <= 8, "normalized length {} too far from one", len);
    }
}

#[test]
fn cross_is_orthogonal_exactly_on_grid() {
    let u = Vec3::new(S, 2 * S, 3 * S);
    let w = Vec3::new(4 * S, 5 * S, 6 * S);
    let c = Vec3::cross(&u, &w);
    assert_eq!(c, Vec3(-3 * S, 6 * S, -3 * S));
    assert_eq!(Vec3::dot(&c, &u), 0);
    assert_eq!(Vec3::dot(&c, &w), 0);
}

#[test]
fn cross_is_orthogonal_within_epsilon() {
    let u = Vec3::new(12345, 6789, 222);
    let w = Vec3::new(9999, 123, 4567);
    let c = Vec3::cross(&u, &w);
    assert!(Vec3::dot(&c, &u).abs() <= 16);
    assert!(Vec3::dot(&c, &w).abs() <= 16);
}
