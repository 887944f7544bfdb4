use ray_tracing::fixed::{fx_add, fx_div, fx_mul, fx_of_int, fx_sqrt, FX_MAX, FX_ONE};
use ray_tracing::ppm::{push_dec, push_pixel, quantize};
use ray_tracing::random::RandomSource;
use ray_tracing::trig::{rad, tan};

const S: i64 = FX_ONE;

#[test]
fn arithmetic_saturates_at_the_bound() {
    assert_eq!(fx_add(FX_MAX, FX_MAX), FX_MAX);
    assert_eq!(fx_add(-FX_MAX, -FX_MAX), -FX_MAX);
    assert_eq!(fx_div(S, 0), FX_MAX);
    assert_eq!(fx_div(-S, 0), -FX_MAX);
    assert_eq!(fx_mul(FX_MAX, FX_MAX), FX_MAX);
}

#[test]
fn multiplication_rounds_toward_zero() {
    assert_eq!(fx_mul(-3, S / 2), -1);
    assert_eq!(fx_mul(3, S / 2), 1);
    assert_eq!(fx_div(-S, 3 * S), -21845);
}

#[test]
fn square_root_exact_values() {
    assert_eq!(fx_sqrt(S), S);
    assert_eq!(fx_sqrt(4 * S), 2 * S);
    assert_eq!(fx_sqrt(0), 0);
    assert_eq!(fx_sqrt(-S), 0);
    assert_eq!(fx_sqrt(25 * S), 5 * S);
}

#[test]
fn conversion_from_whole_units() {
    assert_eq!(fx_of_int(7), 7 * S);
    assert_eq!(fx_of_int(-3), -3 * S);
}

#[test]
fn center_source_draws_midpoints() {
    let mut rs = RandomSource::center();
    assert_eq!(rs.draw(0, S), S / 2);
    assert_eq!(rs.draw(-S, S), 0);
    assert_eq!(rs.draw(0, 10), 5);
}

#[test]
fn device_source_draws_in_range() {
    let mut rs = RandomSource::device();
    for _ in 0..100 {
        let x = rs.draw(-S, S);
        assert!(-S <= x && x < S);
    }
}

#[test]
fn tangent_of_small_angles() {
    assert_eq!(tan(0), 0);
    let t = tan(rad(45 * S));
    assert!((t - S).abs() < 400, "tan of a half right angle was {}", t);
}

#[test]
fn quantize_channels() {
    assert_eq!(quantize(0), 0);
    assert_eq!(quantize(S), 255);
    assert_eq!(quantize(-5), 0);
    assert_eq!(quantize(2 * S), 255);
    assert_eq!(quantize(S / 4), 127);
}

#[test]
fn decimal_and_pixel_rows() {
    let mut v: Vec<u8> = Vec::new();
    push_dec(&mut v, 255);
    assert_eq!(v, b"255");
    let mut w: Vec<u8> = Vec::new();
    push_pixel(&mut w, 181, 214, 255);
    assert_eq!(w, b"181 214 255\n");
}
