use astero_core::angle::{cos_milli, sin_milli, wrap_angle, TAU_MRAD};
use astero_core::body::{Body, MAX_VEL};
use astero_core::num::{clamp_i64, isqrt_u64, lerp_i64, mul_div_tz};

fn body_at(pos_x: i64, pos_y: i64) -> Body {
    Body::new(pos_x, pos_y, 0, 0, 0, 0, 10_000)
}

#[test]
fn isqrt_small_values() {
    assert_eq!(isqrt_u64(0), 0);
    assert_eq!(isqrt_u64(1), 1);
    assert_eq!(isqrt_u64(15), 3);
    assert_eq!(isqrt_u64(16), 4);
    assert_eq!(isqrt_u64(250_000u64 * 250_000u64), 250_000);
}

#[test]
fn isqrt_largest_value() {
    assert_eq!(isqrt_u64(u64::MAX), 0xffff_ffff);
}

#[test]
fn lerp_midpoint_and_endpoints() {
    assert_eq!(lerp_i64(0, 10, 5, 10), 5);
    assert_eq!(lerp_i64(10, 0, 5, 10), 5);
    assert_eq!(lerp_i64(-10, 10, 0, 10), -10);
    assert_eq!(lerp_i64(-10, 10, 10, 10), 10);
}

#[test]
fn mul_div_rounds_toward_zero() {
    assert_eq!(mul_div_tz(7, 1, 2), 3);
    assert_eq!(mul_div_tz(-7, 1, 2), -3);
    assert_eq!(clamp_i64(17, 10), 10);
    assert_eq!(clamp_i64(-17, 10), -10);
}

#[test]
fn wrap_angle_into_full_turn() {
    assert_eq!(wrap_angle(0), 0);
    assert_eq!(wrap_angle(-1), TAU_MRAD - 1);
    assert_eq!(wrap_angle(TAU_MRAD), 0);
    assert_eq!(wrap_angle(2 * TAU_MRAD + 5), 5);
}

#[test]
fn sine_fixed_points() {
    assert_eq!(sin_milli(0), 0);
    // a quarter turn: 16000 t / (49348022 - 4 t) with t = 1571 * 1570
    assert_eq!(sin_milli(1571), 999);
    assert_eq!(sin_milli(3141), 0);
    // the second half turn is the negated first half
    assert_eq!(sin_milli(3141 + 1571), -999);
    assert_eq!(cos_milli(0), 999);
}

#[test]
fn update_position_integrates_velocity() {
    let mut b = body_at(1000, 2000);
    b.vel_x = 100_000;
    b.vel_y = -50_000;
    b.update_position(10);
    // 100000 milliunits/s over 10 ms moves 1000 milliunits
    assert_eq!(b.pos_x, 2000);
    assert_eq!(b.pos_y, 1500);
    assert_eq!(b.vel_x, 100_000);
}

#[test]
fn update_position_clamps_speed() {
    let mut b = body_at(0, 0);
    b.vel_x = 300_000;
    b.vel_y = 400_000;
    b.update_position(10);
    // |v| = 500000 exceeds MAX_VEL = 250000: both components halve
    assert_eq!(b.vel_x, 150_000);
    assert_eq!(b.vel_y, 200_000);
    assert_eq!(b.pos_x, 1500);
    assert_eq!(b.pos_y, 2000);
    assert!(b.vel_x <= MAX_VEL && b.vel_y <= MAX_VEL);
}

#[test]
fn rotate_wraps_heading() {
    let mut b = body_at(0, 0);
    b.rvel = 100_000; // 100 mrad per tick of 10 ms
    b.rotate(10, 1);
    assert_eq!(b.rot, 1000);
    b.rotate(10, -1);
    assert_eq!(b.rot, 0);
    b.rotate(10, -1);
    assert_eq!(b.rot, TAU_MRAD - 1000);
    b.rotate(10, 0);
    assert_eq!(b.rot, TAU_MRAD - 1000);
}

#[test]
fn accelerate_thrusts_along_heading() {
    let mut b = body_at(0, 0);
    // heading 0: direction (sin 0, cos 0) = (0, 999/1000)
    b.accelerate(10, -1, 60_000, 10_000);
    assert_eq!(b.vel_x, 0);
    // 999 * 60000 * 10 / 1000000 = 599 (rounded toward zero)
    assert_eq!(b.vel_y, 599);
    // reverse input brakes at the braking rate along the opposite heading
    let mut c = body_at(0, 0);
    c.accelerate(10, 1, 60_000, 10_000);
    assert_eq!(c.vel_x, 0);
    assert!(c.vel_y < 0);
    // no input leaves the body untouched
    let mut d = body_at(0, 0);
    d.accelerate(10, 0, 60_000, 10_000);
    assert_eq!(d, body_at(0, 0));
}

#[test]
fn wrap_position_reflects_outward_velocity() {
    let mut b = body_at(401_000, 0);
    b.vel_x = 1000;
    b.wrap_position(400_000, 300_000);
    assert_eq!(b.vel_x, -1000);
    // already moving back in: untouched
    let mut c = body_at(401_000, 0);
    c.vel_x = -1000;
    c.wrap_position(400_000, 300_000);
    assert_eq!(c.vel_x, -1000);
    // inside the bounds: untouched
    let mut d = body_at(0, 0);
    d.vel_x = 1000;
    d.wrap_position(400_000, 300_000);
    assert_eq!(d.vel_x, 1000);
}

#[test]
fn replay_of_identical_steps_is_bit_identical() {
    let start = {
        let mut b = body_at(123, -456);
        b.vel_x = 70_000;
        b.vel_y = -20_000;
        b.rvel = 50_000;
        b
    };
    let mut one = start;
    let mut two = start;
    for _ in 0..100 {
        one.accelerate(10, -1, 60_000, 10_000);
        one.update_position(10);
        one.rotate(10, 1);
        one.wrap_position(400_000, 300_000);
    }
    for _ in 0..100 {
        two.accelerate(10, -1, 60_000, 10_000);
        two.update_position(10);
        two.rotate(10, 1);
        two.wrap_position(400_000, 300_000);
    }
    assert_eq!(one, two);
}
