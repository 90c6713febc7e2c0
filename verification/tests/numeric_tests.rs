use render_core::angle::{sin_cos_mdeg, wrap_angle_mdeg};
use render_core::fixed::{div_trunc_i64, isqrt_u128};

#[test]
fn sine_and_cosine_are_exact_at_the_cardinal_angles() {
    assert_eq!(sin_cos_mdeg(0), (0, 1024));
    assert_eq!(sin_cos_mdeg(90000), (1024, 0));
    assert_eq!(sin_cos_mdeg(180000), (0, -1024));
    assert_eq!(sin_cos_mdeg(270000), (-1024, 0));
}

#[test]
fn sine_of_thirty_degrees_is_exactly_one_half() {
    let (s, c) = sin_cos_mdeg(30000);
    assert_eq!(s, 512);
    // cos 30 degrees ~ 0.866: the integer square root of 1048576 - 512^2.
    assert_eq!(c, 886);
}

#[test]
fn sine_is_odd_about_the_half_turn() {
    let (s1, _) = sin_cos_mdeg(10000);
    let (s2, _) = sin_cos_mdeg(190000);
    assert_eq!(s1, -s2);
    assert!(s1 > 0);
}

#[test]
fn trig_values_stay_on_the_unit_circle() {
    for a in [0u32, 12345, 67890, 123456, 200_001, 359_999] {
        let (s, c) = sin_cos_mdeg(a);
        let r = s * s + c * c;
        assert!(r <= 1024 * 1024, "angle {a}: {r}");
        assert!(r > 1024 * 1024 - 2049, "angle {a}: {r}");
    }
}

#[test]
fn angles_wrap_into_one_turn() {
    assert_eq!(wrap_angle_mdeg(0), 0);
    assert_eq!(wrap_angle_mdeg(-90000), 270000);
    assert_eq!(wrap_angle_mdeg(360000), 0);
    assert_eq!(wrap_angle_mdeg(-360000), 0);
    assert_eq!(wrap_angle_mdeg(370000), 10000);
    assert_eq!(wrap_angle_mdeg(-1), 359999);
}

#[test]
fn integer_square_roots_bracket_their_input() {
    assert_eq!(isqrt_u128(0), 0);
    assert_eq!(isqrt_u128(1), 1);
    assert_eq!(isqrt_u128(3), 1);
    assert_eq!(isqrt_u128(4), 2);
    assert_eq!(isqrt_u128(1048576 * 1048576), 1048576);
    assert_eq!(isqrt_u128(u64::MAX as u128), 4294967295);
}

#[test]
fn truncating_division_rounds_towards_zero() {
    assert_eq!(div_trunc_i64(7, 2), 3);
    assert_eq!(div_trunc_i64(-7, 2), -3);
    assert_eq!(div_trunc_i64(-1, 1048576), 0);
    assert_eq!(div_trunc_i64(1048575, 1048576), 0);
}
