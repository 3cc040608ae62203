use planet_render::fixed::{div_floor, fmul, isqrt, sadd, smul, ONE, SAT};
use planet_render::trig::{atan2_fixed, cos_fixed, sin_fixed, HALF_PI, PI};

#[test]
fn division_rounds_down_for_every_sign() {
    assert_eq!(div_floor(7, 2), 3);
    assert_eq!(div_floor(-7, 2), -4);
    assert_eq!(div_floor(7, -2), -4);
    assert_eq!(div_floor(-7, -2), 3);
    assert_eq!(div_floor(6, 3), 2);
    assert_eq!(div_floor(-6, 3), -2);
}

#[test]
fn fixed_product_is_rounded_down() {
    assert_eq!(fmul(1_500_000, 2_000_000), 3_000_000);
    assert_eq!(fmul(-1, 1), -1);
    assert_eq!(fmul(1, 1), 0);
    assert_eq!(fmul(-ONE, ONE), -(ONE as i128));
}

#[test]
fn saturating_operations_stop_at_the_bound() {
    assert_eq!(smul(i64::MAX, i64::MAX), SAT);
    assert_eq!(smul(i64::MIN, i64::MAX), -SAT);
    assert_eq!(sadd(SAT, SAT), SAT);
    assert_eq!(sadd(-SAT, -5), -SAT);
    assert_eq!(sadd(3, 4), 7);
}

#[test]
fn integer_square_root_rounds_down() {
    assert_eq!(isqrt(0), 0);
    assert_eq!(isqrt(1), 1);
    assert_eq!(isqrt(15), 3);
    assert_eq!(isqrt(16), 4);
    assert_eq!(isqrt(u128::MAX), u64::MAX);
}

#[test]
fn sine_and_cosine_at_quarter_turns() {
    assert_eq!(sin_fixed(0), 0);
    assert_eq!(sin_fixed(HALF_PI), ONE);
    assert_eq!(sin_fixed(-HALF_PI), -ONE);
    assert_eq!(sin_fixed(PI), -1);
    assert_eq!(cos_fixed(0), ONE);
    assert_eq!(cos_fixed(HALF_PI), 0);
    assert_eq!(sin_fixed(2 * PI + HALF_PI), sin_fixed(HALF_PI + 1));
}

#[test]
fn sine_and_cosine_stay_close_to_the_float_functions() {
    let mut x: i64 = -7_000_000;
    while x < 7_000_000 {
        let t = x as f64 / ONE as f64;
        assert!((sin_fixed(x) as f64 - t.sin() * ONE as f64).abs() <= 4.0, "sin at {}", x);
        assert!((cos_fixed(x) as f64 - t.cos() * ONE as f64).abs() <= 4.0, "cos at {}", x);
        x += 9_973;
    }
}

#[test]
fn arctangent_by_quadrant() {
    assert_eq!(atan2_fixed(0, 0), 0);
    assert_eq!(atan2_fixed(ONE, ONE), 785_398);
    assert_eq!(atan2_fixed(0, -ONE), PI);
    assert_eq!(atan2_fixed(-ONE, 0), -HALF_PI);
    assert_eq!(atan2_fixed(ONE, 0), HALF_PI);
}
