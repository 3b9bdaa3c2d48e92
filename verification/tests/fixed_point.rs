use adaline::{Fixed, SCALE};

fn raw(v: i64) -> Fixed {
    Fixed::from_raw(v)
}

#[test]
fn scale_is_nine_decimal_places() {
    assert_eq!(SCALE, 1_000_000_000);
    assert_eq!(Fixed::from_int(1).raw, SCALE);
    assert_eq!(Fixed::from_int(-3).raw, -3 * SCALE);
    assert_eq!(Fixed::from_raw(42).raw, 42);
}

#[test]
fn from_int_saturates() {
    assert_eq!(Fixed::from_int(i64::MAX).raw, i64::MAX);
    assert_eq!(Fixed::from_int(i64::MIN).raw, i64::MIN);
    assert_eq!(Fixed::from_int(9_223_372_036).raw, 9_223_372_036_000_000_000);
    assert_eq!(Fixed::from_int(9_223_372_037).raw, i64::MAX);
}

#[test]
fn saturating_from_clamps_to_the_range() {
    assert_eq!(Fixed::saturating_from(17).raw, 17);
    assert_eq!(Fixed::saturating_from(i64::MAX as i128 + 1).raw, i64::MAX);
    assert_eq!(Fixed::saturating_from(i64::MIN as i128 - 1).raw, i64::MIN);
    assert_eq!(Fixed::saturating_from(i128::MAX).raw, i64::MAX);
    assert_eq!(Fixed::saturating_from(i128::MIN).raw, i64::MIN);
}

#[test]
fn addition_and_subtraction_are_exact_in_range() {
    assert_eq!(raw(1_500_000_000).sat_add(raw(-250_000_000)), raw(1_250_000_000));
    assert_eq!(raw(1_500_000_000).sat_sub(raw(-250_000_000)), raw(1_750_000_000));
    assert_eq!(raw(-SCALE).sat_sub(raw(2 * SCALE)), raw(-3 * SCALE));
}

#[test]
fn addition_and_subtraction_saturate() {
    assert_eq!(raw(i64::MAX).sat_add(raw(1)), raw(i64::MAX));
    assert_eq!(raw(i64::MIN).sat_add(raw(-1)), raw(i64::MIN));
    assert_eq!(raw(i64::MIN).sat_sub(raw(1)), raw(i64::MIN));
    assert_eq!(raw(i64::MAX).sat_sub(raw(-1)), raw(i64::MAX));
    assert_eq!(raw(0).sat_sub(raw(i64::MIN)), raw(i64::MAX));
}

#[test]
fn multiplication_rescales() {
    assert_eq!(raw(1_500_000_000).sat_mul(raw(1_500_000_000)), raw(2_250_000_000));
    assert_eq!(raw(100_000_000).sat_mul(raw(-3_000_000_000)), raw(-300_000_000));
    assert_eq!(raw(SCALE).sat_mul(raw(123_456_789)), raw(123_456_789));
    assert_eq!(raw(0).sat_mul(raw(i64::MIN)), raw(0));
}

#[test]
fn multiplication_rounds_half_away_from_zero() {
    assert_eq!(raw(1).sat_mul(raw(SCALE / 2)), raw(1));
    assert_eq!(raw(1).sat_mul(raw(SCALE / 2 - 1)), raw(0));
    assert_eq!(raw(-1).sat_mul(raw(SCALE / 2)), raw(-1));
    assert_eq!(raw(-1).sat_mul(raw(SCALE / 2 - 1)), raw(0));
    assert_eq!(raw(7).sat_mul(raw(-500_000_000)), raw(-4));
    assert_eq!(raw(3).sat_mul(raw(SCALE / 3)), raw(1));
    assert_eq!(raw(333_333_333).sat_mul(raw(3 * SCALE)), raw(999_999_999));
}

#[test]
fn multiplication_saturates() {
    assert_eq!(raw(i64::MAX).sat_mul(raw(2 * SCALE)), raw(i64::MAX));
    assert_eq!(raw(i64::MIN).sat_mul(raw(2 * SCALE)), raw(i64::MIN));
    assert_eq!(raw(i64::MAX).sat_mul(raw(-2 * SCALE)), raw(i64::MIN));
    assert_eq!(raw(i64::MIN).sat_mul(raw(i64::MIN)), raw(i64::MAX));
}

#[test]
fn ratio_rounds_down() {
    assert_eq!(Fixed::ratio(1, 2), raw(500_000_000));
    assert_eq!(Fixed::ratio(2, 3), raw(666_666_666));
    assert_eq!(Fixed::ratio(0, 7), raw(0));
    assert_eq!(Fixed::ratio(7, 7), raw(SCALE));
    assert_eq!(Fixed::ratio(49, 50), raw(980_000_000));
}

#[test]
fn ratio_saturates() {
    assert_eq!(Fixed::ratio(usize::MAX, 1), raw(i64::MAX));
}

#[test]
fn fixed_point_tracks_floating_point() {
    let a = 0.731_f64;
    let b = -12.25_f64;
    let fa = raw((a * 1e9).round() as i64);
    let fb = raw((b * 1e9).round() as i64);
    let product = fa.sat_mul(fb).raw as f64 / 1e9;
    assert!((product - a * b).abs() < 1e-8);
    let sum = fa.sat_add(fb).raw as f64 / 1e9;
    assert!((sum - (a + b)).abs() < 1e-8);
}
