use scriplets::fixed::{clamp_i64, clamp_unit, isqrt, mul_div, wrap_angle, Fx2, FP_SCALE, FULL_TURN};

#[test]
fn clamp_holds_values_into_range() {
    assert_eq!(clamp_i64(5, -3, 3), 3);
    assert_eq!(clamp_i64(-5, -3, 3), -3);
    assert_eq!(clamp_i64(2, -3, 3), 2);
}

#[test]
fn mul_div_truncates_toward_zero() {
    assert_eq!(mul_div(7, 2, 4), 3);
    assert_eq!(mul_div(-7, 2, 4), -3);
    assert_eq!(mul_div(7, -2, 4), -3);
    assert_eq!(mul_div(-7, -2, 4), 3);
    assert_eq!(mul_div(0, 123, 7), 0);
}

#[test]
fn isqrt_floors_exactly() {
    assert_eq!(isqrt(0), 0);
    assert_eq!(isqrt(1), 1);
    assert_eq!(isqrt(2), 1);
    assert_eq!(isqrt(4), 2);
    assert_eq!(isqrt(25_920_000), 5091);
    assert_eq!(isqrt(u64::MAX), 0xFFFF_FFFF);
}

#[test]
fn short_vectors_pass_the_unit_clamp_unchanged() {
    let v = Fx2 { x: 100, y: -200 };
    assert_eq!(clamp_unit(v), v);
    let unit = Fx2 { x: FP_SCALE, y: 0 };
    assert_eq!(clamp_unit(unit), unit);
}

#[test]
fn long_vectors_clamp_to_the_unit_circle() {
    assert_eq!(clamp_unit(Fx2 { x: 2 * FP_SCALE, y: 0 }), Fx2 { x: FP_SCALE, y: 0 });
    assert_eq!(clamp_unit(Fx2 { x: 0, y: -5 * FP_SCALE }), Fx2 { x: 0, y: -FP_SCALE });
    // a diagonal lands one truncation step around the circle
    let d = clamp_unit(Fx2 { x: FP_SCALE, y: FP_SCALE });
    assert_eq!(d, Fx2 { x: 2545, y: 2545 });
}

#[test]
fn angles_wrap_into_one_turn() {
    assert_eq!(wrap_angle(0), 0);
    assert_eq!(wrap_angle(FULL_TURN), 0);
    assert_eq!(wrap_angle(FULL_TURN + 7), 7);
    assert_eq!(wrap_angle(-3600), FULL_TURN - 3600);
    assert_eq!(wrap_angle(-FULL_TURN), 0);
}
