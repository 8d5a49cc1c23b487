use gravity_game::math::{isqrt, isqrt_ceil, mul_div_t};
use gravity_game::vec2::{clamp_len_e, scaled_dir_e, Vec2i};

#[test]
fn isqrt_small_values() {
    assert_eq!(isqrt(0), 0);
    assert_eq!(isqrt(1), 1);
    assert_eq!(isqrt(15), 3);
    assert_eq!(isqrt(16), 4);
    assert_eq!(isqrt(17), 4);
}

#[test]
fn isqrt_ceil_values() {
    assert_eq!(isqrt_ceil(0), 0);
    assert_eq!(isqrt_ceil(16), 4);
    assert_eq!(isqrt_ceil(17), 5);
    assert_eq!(isqrt_ceil(24), 5);
    assert_eq!(isqrt_ceil(25), 5);
}

#[test]
fn mul_div_truncates_toward_zero() {
    assert_eq!(mul_div_t(7, 3, 2), 10);
    assert_eq!(mul_div_t(7, -3, 2), -10);
    assert_eq!(mul_div_t(-7, 3, 2), -10);
    assert_eq!(mul_div_t(-7, -3, 2), 10);
    assert_eq!(mul_div_t(0, 5, 9), 0);
}

#[test]
fn clamp_leaves_short_vector_unchanged() {
    let v = Vec2i { x: 3, y: 4 };
    let r = clamp_len_e(v, 10);
    assert_eq!(r, v);
}

#[test]
fn clamp_rescales_to_exact_cap() {
    // |(300, 400)| = 500; clamped to 250 the result is (150, 200), of
    // magnitude exactly 250 and the same direction.
    let r = clamp_len_e(Vec2i { x: 300, y: 400 }, 250);
    assert_eq!(r, Vec2i { x: 150, y: 200 });
    assert_eq!(r.x * r.x + r.y * r.y, 250 * 250);
}

#[test]
fn clamp_boundary_is_untouched() {
    let v = Vec2i { x: 300, y: 400 };
    let r = clamp_len_e(v, 500);
    assert_eq!(r, v);
}

#[test]
fn clamp_preserves_component_signs() {
    let r = clamp_len_e(Vec2i { x: -300, y: 400 }, 250);
    assert_eq!(r, Vec2i { x: -150, y: 200 });
}

#[test]
fn scaled_dir_of_zero_vector_is_zero() {
    let r = scaled_dir_e(Vec2i { x: 0, y: 0 }, 12345);
    assert_eq!(r, Vec2i { x: 0, y: 0 });
}

#[test]
fn scaled_dir_flips_with_source() {
    let a = scaled_dir_e(Vec2i { x: 6, y: 8 }, 100);
    let b = scaled_dir_e(Vec2i { x: -6, y: -8 }, 100);
    assert_eq!(a, Vec2i { x: 60, y: 80 });
    assert_eq!(b, Vec2i { x: -60, y: -80 });
}
