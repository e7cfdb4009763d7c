use platformer_controller::math::axis_from_digital;
use platformer_controller::math::clamp;
use platformer_controller::math::div_trunc;
use platformer_controller::math::inverse_lerp;
use platformer_controller::math::isqrt;
use platformer_controller::math::lerp;
use platformer_controller::math::move_towards_vec2;
use platformer_controller::math::mul_milli;
use platformer_controller::math::vec2_lerp;
use platformer_controller::math::velocity_required_for_jump;
use platformer_controller::vector2::Vector2;

#[test]
fn vector_new_and_accessors() {
    let v = Vector2::new(3, -4);
    assert_eq!(v.x, 3);
    assert_eq!(v.y, -4);
    assert_eq!(Vector2::default(), Vector2 { x: 0, y: 0 });
    assert_eq!(Vector2::zero(), Vector2 { x: 0, y: 0 });
}

#[test]
fn vector_min_max_componentwise() {
    let a = Vector2::new(3, -4);
    let b = Vector2::new(-2, 7);
    assert_eq!(a.min(&b), Vector2 { x: -2, y: -4 });
    assert_eq!(a.max(&b), Vector2 { x: 3, y: 7 });
    assert_eq!(a.min(&a), a);
    assert_eq!(a.max(&a), a);
}

#[test]
fn vector_arithmetic() {
    let a = Vector2::new(3, -4);
    let b = Vector2::new(10, 20);
    assert_eq!(a.add(b), Vector2 { x: 13, y: 16 });
    assert_eq!(b.sub(a), Vector2 { x: 7, y: 24 });
    assert_eq!(a.neg(), Vector2 { x: -3, y: 4 });
    assert_eq!(a.dot(&b), 3 * 10 + (-4) * 20);
    assert_eq!(a.norm_sq(), 25);
}

#[test]
fn vector_products_and_quotients() {
    let a = Vector2::new(6, -8);
    let b = Vector2::new(2, 4);
    assert_eq!(a.mul(b), Vector2 { x: 12, y: -32 });
    assert_eq!(a.mul_scalar(-3), Vector2 { x: -18, y: 24 });
    assert_eq!(a.div(b), Vector2 { x: 3, y: -2 });
    assert_eq!(a.div_scalar(4), Vector2 { x: 1, y: -2 });
    // quotients truncate toward zero, also for negative divisors
    assert_eq!(Vector2::new(7, -7).div_scalar(-2), Vector2 { x: -3, y: 3 });
}

#[test]
fn div_trunc_rounds_toward_zero() {
    assert_eq!(div_trunc(7, 2), 3);
    assert_eq!(div_trunc(-7, 2), -3);
    assert_eq!(div_trunc(999, 1000), 0);
    assert_eq!(div_trunc(-999, 1000), 0);
}

#[test]
fn isqrt_exact_values() {
    assert_eq!(isqrt(0), 0);
    assert_eq!(isqrt(1), 1);
    assert_eq!(isqrt(15), 3);
    assert_eq!(isqrt(16), 4);
    assert_eq!(isqrt(6_720_000_000), 81_975);
    assert_eq!(isqrt(u64::MAX as u128), 4_294_967_295);
}

#[test]
fn lerp_interpolates_in_milli_fractions() {
    assert_eq!(lerp(0, 1000, 500), 500);
    assert_eq!(lerp(0, 1000, 0), 0);
    assert_eq!(lerp(0, 1000, 1000), 1000);
    assert_eq!(lerp(30_000, 30_000, 777), 30_000);
    // truncation toward zero
    assert_eq!(lerp(0, 5, 500), 2);
    assert_eq!(lerp(10, -10, 500), 0);
    assert_eq!(lerp(500, 3000, 975), 2937);
}

#[test]
fn inverse_lerp_is_the_milli_position() {
    assert_eq!(inverse_lerp(0, 1000, 250), 250);
    assert_eq!(inverse_lerp(0, 2000, 500), 250);
    assert_eq!(inverse_lerp(-1000, 1000, 0), 500);
}

#[test]
fn vec2_lerp_componentwise() {
    let a = Vector2::new(0, -1000);
    let b = Vector2::new(1000, 1000);
    assert_eq!(vec2_lerp(a, b, 500), Vector2 { x: 500, y: 0 });
}

#[test]
fn clamp_pushes_into_range() {
    assert_eq!(clamp(5, 0, 10), 5);
    assert_eq!(clamp(-5, 0, 10), 0);
    assert_eq!(clamp(15, 0, 10), 10);
}

#[test]
fn mul_milli_is_the_fixed_point_product() {
    assert_eq!(mul_milli(1000, 1000), 1000);
    assert_eq!(mul_milli(1500, 3), 4);
    assert_eq!(mul_milli(-1500, 3), -4);
    assert_eq!(mul_milli(-1, 1), 0);
    assert_eq!(mul_milli(50_000, 30_000), 1_500_000);
}

#[test]
fn axis_from_digital_signed_axis() {
    assert_eq!(axis_from_digital(true, false), -1000);
    assert_eq!(axis_from_digital(false, true), 1000);
    assert_eq!(axis_from_digital(false, false), 0);
    assert_eq!(axis_from_digital(true, true), 0);
}

#[test]
fn jump_velocity_formula() {
    // 2.1 tiles of 8 units under gravity 200: sqrt(2 * 16.8 * 200) = 81.975
    assert_eq!(velocity_required_for_jump(16_800, 200_000), Some(81_975));
    assert_eq!(velocity_required_for_jump(0, 200_000), Some(0));
}

#[test]
fn jump_velocity_rejects_negative_radicand() {
    assert_eq!(velocity_required_for_jump(-1, 200_000), None);
    assert_eq!(velocity_required_for_jump(16_800, -200_000), None);
}

#[test]
fn move_towards_reaches_target_within_step() {
    let from = Vector2::new(0, 0);
    let to = Vector2::new(3, 4);
    assert_eq!(move_towards_vec2(from, to, 5), to);
    assert_eq!(move_towards_vec2(from, to, 1000), to);
    assert_eq!(move_towards_vec2(to, to, 7), to);
}

#[test]
fn move_towards_clamped_step() {
    let from = Vector2::new(0, 0);
    let to = Vector2::new(30_000, 40_000);
    // gap is 50_000; a step of 5_000 advances a tenth of the way
    let r = move_towards_vec2(from, to, 5_000);
    assert_eq!(r, Vector2 { x: 3_000, y: 4_000 });
    // a zero step stays put when the target is out of reach
    assert_eq!(move_towards_vec2(from, to, 0), from);
}

#[test]
fn move_towards_never_overshoots() {
    // distance to the target never grows over repeated steps
    let to = Vector2::new(123, -456);
    let mut cur = Vector2::new(-4_000, 2_500);
    let mut last_gap = {
        let d = cur.sub(to);
        d.norm_sq()
    };
    for _ in 0..40 {
        cur = move_towards_vec2(cur, to, 300);
        let gap = cur.sub(to).norm_sq();
        assert!(gap <= last_gap);
        last_gap = gap;
    }
    assert_eq!(cur, to);
}
