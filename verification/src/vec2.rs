//! 2D vectors over 64-bit integer coordinates, with a ghost model over
//! unbounded integers. Scaling a vector along its own direction divides by
//! the ceiling square root of its squared length, so a clamped vector never
//! ends up longer than the cap.

use crate::math::{
    absi, div_t, isqrt_c, isqrt_ceil, lemma_div_t_abs, lemma_div_t_le, lemma_div_t_neg,
    lemma_div_t_sign, lemma_isqrt_c, lemma_le_isqrt_c, mul_div_t,
};
use vstd::arithmetic::div_mod::{lemma_fundamental_div_mod, lemma_mod_division_less_than_divisor};
use vstd::prelude::*;

verus! {

/// Component bound under which every intermediate of this module fits its
/// machine type: squared lengths of such vectors fit `u128` with room.
pub const COMP_LIMIT: i64 = 0x4000000000000000;

/// Component bound under which componentwise sums and differences fit `i64`.
pub const ARITH_LIMIT: i64 = 0x2000000000000000;

/// Executable 2D vector.
#[derive(Clone, Copy, PartialEq, Eq, Structural, Debug)]
pub struct Vec2i {
    pub x: i64,
    pub y: i64,
}

/// Ghost 2D vector over unbounded integers; the model of `Vec2i`.
pub struct GVec2 {
    pub x: int,
    pub y: int,
}

impl View for Vec2i {
    type V = GVec2;

    open spec fn view(&self) -> GVec2 {
        GVec2 { x: self.x as int, y: self.y as int }
    }
}

pub open spec fn zero_v() -> GVec2 {
    GVec2 { x: 0, y: 0 }
}

pub open spec fn vadd(a: GVec2, b: GVec2) -> GVec2 {
    GVec2 { x: a.x + b.x, y: a.y + b.y }
}

pub open spec fn vsub(a: GVec2, b: GVec2) -> GVec2 {
    GVec2 { x: a.x - b.x, y: a.y - b.y }
}

pub open spec fn vneg(a: GVec2) -> GVec2 {
    GVec2 { x: -a.x, y: -a.y }
}

/// Squared Euclidean length.
pub open spec fn lensq(a: GVec2) -> int {
    a.x * a.x + a.y * a.y
}

/// Both components within `b` in magnitude.
pub open spec fn bounded(v: GVec2, b: int) -> bool {
    absi(v.x) <= b && absi(v.y) <= b
}

/// `d` rescaled along its own direction to magnitude at most `|m|`:
/// each component is `d * m / len` with `len` the ceiling square root of the
/// squared length. The zero vector has no direction and stays zero.
pub open spec fn scaled_dir(d: GVec2, m: int) -> GVec2 {
    if d.x == 0 && d.y == 0 {
        zero_v()
    } else {
        let len = isqrt_c(lensq(d) as nat) as int;
        GVec2 { x: div_t(d.x * m, len), y: div_t(d.y * m, len) }
    }
}

/// `v` unchanged when its magnitude is within `max`, else rescaled to `max`.
pub open spec fn clamp_len(v: GVec2, max: int) -> GVec2 {
    if lensq(v) <= max * max {
        v
    } else {
        scaled_dir(v, max)
    }
}

/// A nonzero vector has squared length at least 1, and the ceiling square
/// root of its squared length is at least 1 and dominates each component.
pub proof fn lemma_lensq_pos(d: GVec2)
    requires
        d.x != 0 || d.y != 0,
    ensures
        lensq(d) >= 1,
        isqrt_c(lensq(d) as nat) >= 1,
        absi(d.x) <= isqrt_c(lensq(d) as nat) as int,
        absi(d.y) <= isqrt_c(lensq(d) as nat) as int,
{
    assert(d.x * d.x + d.y * d.y >= 1) by (nonlinear_arith)
        requires
            d.x != 0 || d.y != 0,
    ;
    lemma_isqrt_c(lensq(d) as nat);
    assert(absi(d.x) * absi(d.x) <= lensq(d)) by (nonlinear_arith);
    assert(absi(d.y) * absi(d.y) <= lensq(d)) by (nonlinear_arith);
    lemma_le_isqrt_c(lensq(d) as nat, absi(d.x) as nat);
    lemma_le_isqrt_c(lensq(d) as nat, absi(d.y) as nat);
}

/// Each component of a direction-scaled vector is bounded by the scale, and
/// for a non-negative scale it keeps the sign of the source component.
pub proof fn lemma_scaled_comp(d: GVec2, m: int)
    ensures
        absi(scaled_dir(d, m).x) <= absi(m),
        absi(scaled_dir(d, m).y) <= absi(m),
        m >= 0 && d.x >= 0 ==> scaled_dir(d, m).x >= 0,
        m >= 0 && d.x <= 0 ==> scaled_dir(d, m).x <= 0,
        m >= 0 && d.y >= 0 ==> scaled_dir(d, m).y >= 0,
        m >= 0 && d.y <= 0 ==> scaled_dir(d, m).y <= 0,
{
    if d.x == 0 && d.y == 0 {
    } else {
        lemma_lensq_pos(d);
        let len = isqrt_c(lensq(d) as nat) as int;
        assert(absi(d.x * m) <= absi(m) * len) by (nonlinear_arith)
            requires
                absi(d.x) <= len,
        ;
        assert(absi(d.y * m) <= absi(m) * len) by (nonlinear_arith)
            requires
                absi(d.y) <= len,
        ;
        lemma_div_t_le(d.x * m, len, absi(m));
        lemma_div_t_le(d.y * m, len, absi(m));
        lemma_div_t_sign(d.x * m, len);
        lemma_div_t_sign(d.y * m, len);
        if m >= 0 {
            assert(d.x >= 0 ==> d.x * m >= 0) by (nonlinear_arith)
                requires
                    m >= 0,
            ;
            assert(d.x <= 0 ==> d.x * m <= 0) by (nonlinear_arith)
                requires
                    m >= 0,
            ;
            assert(d.y >= 0 ==> d.y * m >= 0) by (nonlinear_arith)
                requires
                    m >= 0,
            ;
            assert(d.y <= 0 ==> d.y * m <= 0) by (nonlinear_arith)
                requires
                    m >= 0,
            ;
        }
    }
}

/// Scaling along the direction is odd in the vector: flipping the source
/// flips the result.
pub proof fn lemma_scaled_neg(d: GVec2, m: int)
    ensures
        scaled_dir(vneg(d), m) == vneg(scaled_dir(d, m)),
{
    if d.x == 0 && d.y == 0 {
    } else {
        assert(lensq(vneg(d)) == lensq(d)) by (nonlinear_arith);
        lemma_lensq_pos(d);
        let len = isqrt_c(lensq(d) as nat) as int;
        assert((-d.x) * m == -(d.x * m)) by (nonlinear_arith);
        assert((-d.y) * m == -(d.y * m)) by (nonlinear_arith);
        lemma_div_t_neg(d.x * m, len);
        lemma_div_t_neg(d.y * m, len);
    }
}

/// The squared-length comparison behind the clamp: squaring both sides of a
/// magnitude inequality.
proof fn lemma_trunc_sq_bound(w: int, len: int, p: int) by (nonlinear_arith)
    requires
        len >= 1,
        (if w < 0 {
            -w
        } else {
            w
        }) * len <= (if p < 0 {
            -p
        } else {
            p
        }),
    ensures
        w * w * (len * len) <= p * p,
{
}

/// A direction-scaled vector is never longer than its scale: its squared
/// length is at most `m * m`.
pub proof fn lemma_scaled_lensq(d: GVec2, m: int)
    ensures
        lensq(scaled_dir(d, m)) <= m * m,
{
    if d.x == 0 && d.y == 0 {
        assert(m * m >= 0) by (nonlinear_arith);
    } else {
        lemma_lensq_pos(d);
        let n = lensq(d);
        lemma_isqrt_c(n as nat);
        let len = isqrt_c(n as nat) as int;
        let wx = div_t(d.x * m, len);
        let wy = div_t(d.y * m, len);
        lemma_div_t_abs(d.x * m, len);
        lemma_div_t_abs(d.y * m, len);
        lemma_fundamental_div_mod(absi(d.x * m), len);
        lemma_fundamental_div_mod(absi(d.y * m), len);
        lemma_mod_division_less_than_divisor(absi(d.x * m), len);
        lemma_mod_division_less_than_divisor(absi(d.y * m), len);
        assert(absi(wx) * len <= absi(d.x * m));
        assert(absi(wy) * len <= absi(d.y * m));
        lemma_trunc_sq_bound(wx, len, d.x * m);
        lemma_trunc_sq_bound(wy, len, d.y * m);
        assert((d.x * m) * (d.x * m) == (d.x * d.x) * (m * m)) by (nonlinear_arith);
        assert((d.y * m) * (d.y * m) == (d.y * d.y) * (m * m)) by (nonlinear_arith);
        assert(wx * wx + wy * wy <= m * m) by (nonlinear_arith)
            requires
                wx * wx * (len * len) <= (d.x * d.x) * (m * m),
                wy * wy * (len * len) <= (d.y * d.y) * (m * m),
                d.x * d.x + d.y * d.y <= len * len,
                len >= 1,
        ;
    }
}

/// For a non-negative cap the clamp is sound: the result's squared length
/// never exceeds the squared cap, a vector already within the cap is
/// returned untouched, and the magnitude is only ever reduced, never
/// amplified.
pub proof fn lemma_clamp_sound(v: GVec2, max: int)
    requires
        max >= 0,
    ensures
        lensq(clamp_len(v, max)) <= max * max,
        lensq(v) <= max * max ==> clamp_len(v, max) == v,
        lensq(clamp_len(v, max)) <= lensq(v),
{
    if lensq(v) <= max * max {
    } else {
        lemma_scaled_lensq(v, max);
    }
}

/// A clamped vector is componentwise within the cap's magnitude, whichever
/// branch the clamp takes.
pub proof fn lemma_clamp_comp(v: GVec2, max: int)
    ensures
        bounded(clamp_len(v, max), absi(max)),
{
    if lensq(v) <= max * max {
        assert(absi(v.x) <= absi(max) && absi(v.y) <= absi(max)) by (nonlinear_arith)
            requires
                v.x * v.x + v.y * v.y <= max * max,
        ;
    } else {
        lemma_scaled_comp(v, max);
    }
}

impl Vec2i {
    /// The all-zero vector.
    pub fn zero() -> (r: Vec2i)
        ensures
            r@ == zero_v(),
    {
        Vec2i { x: 0, y: 0 }
    }

    /// Componentwise difference.
    pub fn sub(self, other: Vec2i) -> (r: Vec2i)
        requires
            bounded(self@, ARITH_LIMIT as int),
            bounded(other@, ARITH_LIMIT as int),
        ensures
            r@ == vsub(self@, other@),
    {
        Vec2i { x: self.x - other.x, y: self.y - other.y }
    }

    /// Componentwise sum.
    pub fn add(self, other: Vec2i) -> (r: Vec2i)
        requires
            bounded(self@, ARITH_LIMIT as int),
            bounded(other@, ARITH_LIMIT as int),
        ensures
            r@ == vadd(self@, other@),
    {
        Vec2i { x: self.x + other.x, y: self.y + other.y }
    }

    /// Squared Euclidean length, exact in 128 bits.
    pub fn len_sq(self) -> (r: u128)
        requires
            bounded(self@, COMP_LIMIT as int),
        ensures
            r as int == lensq(self@),
    {
        proof {
            assert((self.x as int) * (self.x as int) <= (COMP_LIMIT as int) * (COMP_LIMIT as int)
                && (self.x as int) * (self.x as int) >= 0) by (nonlinear_arith)
                requires
                    absi(self.x as int) <= COMP_LIMIT as int,
            ;
            assert((self.y as int) * (self.y as int) <= (COMP_LIMIT as int) * (COMP_LIMIT as int)
                && (self.y as int) * (self.y as int) >= 0) by (nonlinear_arith)
                requires
                    absi(self.y as int) <= COMP_LIMIT as int,
            ;
        }
        let xx: i128 = (self.x as i128) * (self.x as i128);
        let yy: i128 = (self.y as i128) * (self.y as i128);
        (xx + yy) as u128
    }
}

/// Executable direction scaling, exactly the ghost `scaled_dir`.
pub fn scaled_dir_e(d: Vec2i, m: i64) -> (r: Vec2i)
    requires
        bounded(d@, COMP_LIMIT as int),
        m > i64::MIN,
    ensures
        r@ == scaled_dir(d@, m as int),
{
    if d.x == 0 && d.y == 0 {
        Vec2i { x: 0, y: 0 }
    } else {
        let l2: u128 = d.len_sq();
        proof {
            lemma_lensq_pos(d@);
        }
        let len: u128 = isqrt_ceil(l2);
        proof {
            lemma_scaled_comp(d@, m as int);
        }
        let rx: i64 = mul_div_t(d.x, m, len);
        let ry: i64 = mul_div_t(d.y, m, len);
        Vec2i { x: rx, y: ry }
    }
}

/// Executable clamp, exactly the ghost `clamp_len`.
pub fn clamp_len_e(v: Vec2i, max: i64) -> (r: Vec2i)
    requires
        bounded(v@, COMP_LIMIT as int),
        max > i64::MIN,
    ensures
        r@ == clamp_len(v@, max as int),
{
    let l2: u128 = v.len_sq();
    let nm: u64 = if max >= 0 {
        max as u64
    } else {
        (-max) as u64
    };
    proof {
        assert((nm as int) * (nm as int) == (max as int) * (max as int)
            && (nm as nat) * (nm as nat) < 0x100000000000000000000000000000000) by (nonlinear_arith)
            requires
                nm as int == absi(max as int),
                nm <= 0x8000000000000000u64,
        ;
    }
    let m2: u128 = (nm as u128) * (nm as u128);
    if l2 <= m2 {
        v
    } else {
        scaled_dir_e(v, max)
    }
}

} // verus!
