//! The per-frame force accumulation and integration kernel: every particle
//! sums pairwise gravitational pulls from all other particles and from the
//! frame's attractor points, the total acceleration is clamped, velocity is
//! integrated over the elapsed time and clamped to the fixed maximum speed.
//!
//! Each particle's acceleration is computed from a read-only snapshot of all
//! positions, so velocity writes never feed back into the same frame.

use crate::math::{absi, div_t, lemma_div_t_le, mul_div_t};
use crate::vec2::{
    bounded, clamp_len, clamp_len_e, lensq, scaled_dir, scaled_dir_e, vadd, vneg, vsub, zero_v,
    GVec2, Vec2i, COMP_LIMIT,
};
use crate::{ATTRACTOR_MASS, DIST_SQ_FLOOR, MAX_PARTICLE_VELOCITY, PARTICLE_MASS};
use vstd::arithmetic::div_mod::{lemma_div_basics, lemma_div_is_ordered_by_denominator};
use vstd::prelude::*;

verus! {

/// World coordinates handed to the kernel stay within this bound.
pub const COORD_LIMIT: i64 = 0x40000000;

/// Incoming velocities stay within this bound (outgoing ones are clamped far
/// below it).
pub const VEL_LIMIT: i64 = 0x40000000;

/// Tunable values fed to the kernel stay within this bound in magnitude.
pub const TUNABLE_LIMIT: i64 = 0x80000000;

/// At most this many particles per frame.
pub const MAX_PARTICLE_COUNT: usize = 65536;

/// At most this many attractors per frame.
pub const MAX_ATTRACTOR_COUNT: usize = 4096;

/// Elapsed time per frame is at most this many milliseconds.
pub const DT_LIMIT_MS: u64 = 1000000;

/// The ghost image of a vector sequence.
pub open spec fn views_of(s: Seq<Vec2i>) -> Seq<GVec2> {
    s.map_values(|v: Vec2i| v@)
}

/// Every element within component bound `b`.
pub open spec fn all_bounded(s: Seq<GVec2>, b: int) -> bool {
    forall|i: int| 0 <= i < s.len() ==> bounded(#[trigger] s[i], b)
}

/// Squared separation with the singularity floor applied.
pub open spec fn floored_r2(d: GVec2) -> int {
    if lensq(d) < DIST_SQ_FLOOR as int {
        DIST_SQ_FLOOR as int
    } else {
        lensq(d)
    }
}

/// Scalar magnitude of the pull between two particles at floored squared
/// separation `r2`.
pub open spec fn pair_mag(g: int, r2: int) -> int {
    div_t(g * (PARTICLE_MASS as int) * (PARTICLE_MASS as int), r2)
}

/// Scalar magnitude of the pull of an attractor at floored squared
/// separation `r2`.
pub open spec fn attractor_mag(ga: int, r2: int) -> int {
    div_t(ga * (ATTRACTOR_MASS as int), r2)
}

/// Acceleration a particle at `p` receives from a particle at `q`.
/// Coincident points have no direction and contribute nothing.
pub open spec fn pair_accel(p: GVec2, q: GVec2, g: int) -> GVec2 {
    let d = vsub(q, p);
    scaled_dir(d, pair_mag(g, floored_r2(d)))
}

/// Acceleration a particle at `p` receives from an attractor at `a`.
pub open spec fn attractor_accel(p: GVec2, a: GVec2, ga: int) -> GVec2 {
    let d = vsub(a, p);
    scaled_dir(d, attractor_mag(ga, floored_r2(d)))
}

/// Sum of the pair contributions to particle `i` from particles with index
/// below `j`, particle `i` itself excluded.
pub open spec fn accel_pairs_upto(ps: Seq<GVec2>, i: int, j: int, g: int) -> GVec2
    decreases j,
{
    if j <= 0 {
        zero_v()
    } else {
        let prev = accel_pairs_upto(ps, i, j - 1, g);
        if j - 1 == i {
            prev
        } else {
            vadd(prev, pair_accel(ps[i], ps[j - 1], g))
        }
    }
}

/// Sum of the attractor contributions to a particle at `p` from attractors
/// with index below `k`.
pub open spec fn accel_attrs_upto(p: GVec2, ats: Seq<GVec2>, k: int, ga: int) -> GVec2
    decreases k,
{
    if k <= 0 {
        zero_v()
    } else {
        vadd(accel_attrs_upto(p, ats, k - 1, ga), attractor_accel(p, ats[k - 1], ga))
    }
}

/// Raw (unclamped) acceleration of particle `i`: all pair contributions plus
/// all attractor contributions.
pub open spec fn raw_accel(ps: Seq<GVec2>, i: int, ats: Seq<GVec2>, g: int, ga: int) -> GVec2 {
    vadd(
        accel_pairs_upto(ps, i, ps.len() as int, g),
        accel_attrs_upto(ps[i], ats, ats.len() as int, ga),
    )
}

/// Velocity after integrating acceleration `a` over `dt_ms` milliseconds.
pub open spec fn integrate(v: GVec2, a: GVec2, dt_ms: int) -> GVec2 {
    GVec2 { x: v.x + div_t(a.x * dt_ms, 1000), y: v.y + div_t(a.y * dt_ms, 1000) }
}

/// The complete per-particle update: raw acceleration, acceleration clamp,
/// integration, speed clamp.
pub open spec fn new_velocity(
    ps: Seq<GVec2>,
    i: int,
    v: GVec2,
    ats: Seq<GVec2>,
    g: int,
    ga: int,
    max_acc: int,
    dt_ms: int,
) -> GVec2 {
    let a = clamp_len(raw_accel(ps, i, ats, g, ga), max_acc);
    clamp_len(integrate(v, a, dt_ms), MAX_PARTICLE_VELOCITY as int)
}

/// Force law: for non-negative gravity constants the pull magnitude never
/// increases as the squared separation grows, and it is bounded at the floor
/// by the constant times the masses — never unbounded, however close the
/// points are.
pub proof fn lemma_force_monotone(g: int, ga: int, r2a: int, r2b: int)
    requires
        g >= 0,
        ga >= 0,
        1 <= r2a <= r2b,
    ensures
        pair_mag(g, r2b) <= pair_mag(g, r2a),
        0 <= pair_mag(g, r2a) <= g * (PARTICLE_MASS as int) * (PARTICLE_MASS as int),
        attractor_mag(ga, r2b) <= attractor_mag(ga, r2a),
        0 <= attractor_mag(ga, r2a) <= ga * (ATTRACTOR_MASS as int),
{
    let num = g * (PARTICLE_MASS as int) * (PARTICLE_MASS as int);
    let numa = ga * (ATTRACTOR_MASS as int);
    assert(num >= 0 && numa >= 0) by (nonlinear_arith)
        requires
            g >= 0,
            ga >= 0,
            num == g * (PARTICLE_MASS as int) * (PARTICLE_MASS as int),
            numa == ga * (ATTRACTOR_MASS as int),
            (PARTICLE_MASS as int) == 1,
            (ATTRACTOR_MASS as int) == 10000,
    ;
    lemma_div_is_ordered_by_denominator(num, r2a, r2b);
    lemma_div_is_ordered_by_denominator(num, 1, r2a);
    lemma_div_basics(num);
    lemma_div_is_ordered_by_denominator(numa, r2a, r2b);
    lemma_div_is_ordered_by_denominator(numa, 1, r2a);
    lemma_div_basics(numa);
}

/// With no attractors the frame is pure inter-particle gravity, and a single
/// isolated particle receives no acceleration at all.
pub proof fn lemma_zero_attractors(ps: Seq<GVec2>, i: int, g: int, ga: int)
    requires
        0 <= i < ps.len(),
    ensures
        raw_accel(ps, i, Seq::empty(), g, ga) == accel_pairs_upto(ps, i, ps.len() as int, g),
        ps.len() == 1 ==> raw_accel(ps, i, Seq::empty(), g, ga) == zero_v(),
{
    let pairs = accel_pairs_upto(ps, i, ps.len() as int, g);
    assert(accel_attrs_upto(ps[i], Seq::empty(), 0, ga) == zero_v());
    assert(vadd(pairs, zero_v()) == pairs);
    if ps.len() == 1 {
        assert(accel_pairs_upto(ps, 0, 1, g) == accel_pairs_upto(ps, 0, 0, g));
    }
}

/// Two equal-mass particles placed symmetrically about the origin, with no
/// attractors, receive accelerations equal in magnitude and opposite in
/// direction.
pub proof fn lemma_symmetric_pair(p: GVec2, g: int, ga: int)
    ensures
        raw_accel(seq![p, vneg(p)], 0, Seq::empty(), g, ga) == vneg(
            raw_accel(seq![p, vneg(p)], 1, Seq::empty(), g, ga),
        ),
{
    let ps = seq![p, vneg(p)];
    reveal_with_fuel(accel_pairs_upto, 3);
    lemma_zero_attractors(ps, 0, g, ga);
    lemma_zero_attractors(ps, 1, g, ga);
    let d0 = vsub(ps[1], ps[0]);
    let d1 = vsub(ps[0], ps[1]);
    assert(d1 == vneg(d0));
    assert((-d0.x) * (-d0.x) + (-d0.y) * (-d0.y) == d0.x * d0.x + d0.y * d0.y)
        by (nonlinear_arith);
    assert(lensq(d1) == lensq(d0));
    let m = pair_mag(g, floored_r2(d0));
    crate::vec2::lemma_scaled_neg(d0, m);
    assert(pair_accel(ps[1], ps[0], g) == vneg(pair_accel(ps[0], ps[1], g)));
    assert(accel_pairs_upto(ps, 0, 1, g) == zero_v());
    assert(accel_pairs_upto(ps, 0, 2, g) == vadd(zero_v(), pair_accel(ps[0], ps[1], g)));
    assert(accel_pairs_upto(ps, 1, 1, g) == vadd(zero_v(), pair_accel(ps[1], ps[0], g)));
    assert(accel_pairs_upto(ps, 1, 2, g) == accel_pairs_upto(ps, 1, 1, g));
    assert(vadd(zero_v(), pair_accel(ps[0], ps[1], g)) == pair_accel(ps[0], ps[1], g));
    assert(vadd(zero_v(), pair_accel(ps[1], ps[0], g)) == pair_accel(ps[1], ps[0], g));
}

/// Two particles at identical positions: the displacement has no direction,
/// normalizes to the zero vector, and the pair contributes zero acceleration
/// — the floor keeps the magnitude finite and the direction rule keeps it
/// from being undefined.
pub proof fn lemma_coincident(p: GVec2, g: int)
    ensures
        pair_accel(p, p, g) == zero_v(),
{
    assert(vsub(p, p) == GVec2 { x: 0, y: 0 });
}

/// The acceleration entering integration is magnitude-clamped: for a
/// non-negative cap its squared length never exceeds the squared cap, a
/// vector already within the cap passes through unchanged, and no component
/// ever flips sign.
pub proof fn lemma_accel_clamped(
    ps: Seq<GVec2>,
    i: int,
    ats: Seq<GVec2>,
    g: int,
    ga: int,
    max_acc: int,
)
    requires
        max_acc >= 0,
    ensures
        ({
            let raw = raw_accel(ps, i, ats, g, ga);
            let a = clamp_len(raw, max_acc);
            &&& lensq(a) <= max_acc * max_acc
            &&& lensq(raw) <= max_acc * max_acc ==> a == raw
            &&& raw.x >= 0 ==> a.x >= 0
            &&& raw.x <= 0 ==> a.x <= 0
            &&& raw.y >= 0 ==> a.y >= 0
            &&& raw.y <= 0 ==> a.y <= 0
        }),
{
    let raw = raw_accel(ps, i, ats, g, ga);
    crate::vec2::lemma_clamp_sound(raw, max_acc);
    if lensq(raw) <= max_acc * max_acc {
    } else {
        crate::vec2::lemma_scaled_comp(raw, max_acc);
    }
}

/// The velocity leaving the kernel never exceeds the fixed maximum speed.
pub proof fn lemma_speed_limited(
    ps: Seq<GVec2>,
    i: int,
    v: GVec2,
    ats: Seq<GVec2>,
    g: int,
    ga: int,
    max_acc: int,
    dt_ms: int,
)
    ensures
        lensq(new_velocity(ps, i, v, ats, g, ga, max_acc, dt_ms)) <= (MAX_PARTICLE_VELOCITY as int)
            * (MAX_PARTICLE_VELOCITY as int),
{
    let a = clamp_len(raw_accel(ps, i, ats, g, ga), max_acc);
    crate::vec2::lemma_clamp_sound(integrate(v, a, dt_ms), MAX_PARTICLE_VELOCITY as int);
}

/// A pair contribution is componentwise within the gravity constant's
/// magnitude: the floored squared separation is at least 1.
pub proof fn lemma_pair_contrib_bound(p: GVec2, q: GVec2, g: int)
    ensures
        bounded(pair_accel(p, q, g), absi(g)),
{
    let d = vsub(q, p);
    let r2 = floored_r2(d);
    assert(lensq(d) >= 0) by (nonlinear_arith);
    assert(absi(g * (PARTICLE_MASS as int) * (PARTICLE_MASS as int)) <= absi(g) * r2)
        by (nonlinear_arith)
        requires
            r2 >= 1,
    ;
    lemma_div_t_le(g * (PARTICLE_MASS as int) * (PARTICLE_MASS as int), r2, absi(g));
    crate::vec2::lemma_scaled_comp(d, pair_mag(g, r2));
}

/// An attractor contribution is componentwise within the attractor gravity
/// constant times the attractor mass.
pub proof fn lemma_attr_contrib_bound(p: GVec2, a: GVec2, ga: int)
    ensures
        bounded(attractor_accel(p, a, ga), absi(ga) * (ATTRACTOR_MASS as int)),
{
    let d = vsub(a, p);
    let r2 = floored_r2(d);
    assert(lensq(d) >= 0) by (nonlinear_arith);
    assert(absi(ga * (ATTRACTOR_MASS as int)) <= (absi(ga) * (ATTRACTOR_MASS as int)) * r2
        && absi(ga) * (ATTRACTOR_MASS as int) >= 0) by (nonlinear_arith)
        requires
            r2 >= 1,
    ;
    lemma_div_t_le(ga * (ATTRACTOR_MASS as int), r2, absi(ga) * (ATTRACTOR_MASS as int));
    crate::vec2::lemma_scaled_comp(d, attractor_mag(ga, r2));
}

/// Raw acceleration of particle `i` against the position snapshot and the
/// frame's attractor list.
#[verifier::loop_isolation(false)]
pub fn accel_at(
    positions: &Vec<Vec2i>,
    i: usize,
    attractors: &Vec<Vec2i>,
    g: i64,
    ga: i64,
) -> (r: Vec2i)
    requires
        i < positions@.len(),
        positions@.len() <= MAX_PARTICLE_COUNT as int,
        attractors@.len() <= MAX_ATTRACTOR_COUNT as int,
        all_bounded(views_of(positions@), COORD_LIMIT as int),
        all_bounded(views_of(attractors@), COORD_LIMIT as int),
        absi(g as int) <= TUNABLE_LIMIT as int,
        absi(ga as int) <= TUNABLE_LIMIT as int,
    ensures
        r@ == raw_accel(views_of(positions@), i as int, views_of(attractors@), g as int, ga as int),
        bounded(
            r@,
            positions@.len() * (TUNABLE_LIMIT as int) + attractors@.len() * (
            (TUNABLE_LIMIT as int) * (ATTRACTOR_MASS as int)),
        ),
{
    let ghost vps = views_of(positions@);
    let ghost vats = views_of(attractors@);
    let n = positions.len();
    let p_i = positions[i];
    let mut acc = Vec2i::zero();
    let mut j: usize = 0;
    while j < n
        invariant
            j <= n,
            acc@ == accel_pairs_upto(vps, i as int, j as int, g as int),
            bounded(acc@, j * (TUNABLE_LIMIT as int)),
        decreases n - j,
    {
        if j != i {
            proof {
                assert(vps[j as int] == positions@[j as int]@);
                assert(vps[i as int] == positions@[i as int]@);
                assert(bounded(vps[j as int], COORD_LIMIT as int));
                assert(bounded(vps[i as int], COORD_LIMIT as int));
            }
            let d = positions[j].sub(p_i);
            let r2 = d.len_sq();
            let r2f: u128 = if r2 < DIST_SQ_FLOOR as u128 {
                DIST_SQ_FLOOR as u128
            } else {
                r2
            };
            proof {
                assert(r2f as int == floored_r2(d@));
                assert(absi(g as int * (PARTICLE_MASS as int) * (PARTICLE_MASS as int)) <= absi(
                    g as int,
                ) * (r2f as int)) by (nonlinear_arith)
                    requires
                        r2f >= 1,
                ;
                lemma_div_t_le(
                    g as int * (PARTICLE_MASS as int) * (PARTICLE_MASS as int),
                    r2f as int,
                    absi(g as int),
                );
            }
            let m = mul_div_t(g, PARTICLE_MASS * PARTICLE_MASS, r2f);
            let pull = scaled_dir_e(d, m);
            proof {
                lemma_pair_contrib_bound(vps[i as int], vps[j as int], g as int);
                assert(pull@ == pair_accel(vps[i as int], vps[j as int], g as int));
            }
            acc = acc.add(pull);
        }
        j = j + 1;
        proof {
            assert(acc@ == accel_pairs_upto(vps, i as int, j as int, g as int));
        }
    }
    let ghost pairs_full = accel_pairs_upto(vps, i as int, n as int, g as int);
    let k_total = attractors.len();
    let mut k: usize = 0;
    proof {
        assert(vadd(pairs_full, zero_v()) == pairs_full);
    }
    while k < k_total
        invariant
            k <= k_total,
            acc@ == vadd(pairs_full, accel_attrs_upto(vps[i as int], vats, k as int, ga as int)),
            bounded(
                acc@,
                n * (TUNABLE_LIMIT as int) + k * ((TUNABLE_LIMIT as int) * (
                ATTRACTOR_MASS as int)),
            ),
        decreases k_total - k,
    {
        proof {
            assert(vats[k as int] == attractors@[k as int]@);
            assert(vps[i as int] == positions@[i as int]@);
            assert(bounded(vats[k as int], COORD_LIMIT as int));
            assert(bounded(vps[i as int], COORD_LIMIT as int));
        }
        let d = attractors[k].sub(p_i);
        let r2 = d.len_sq();
        let r2f: u128 = if r2 < DIST_SQ_FLOOR as u128 {
            DIST_SQ_FLOOR as u128
        } else {
            r2
        };
        proof {
            assert(r2f as int == floored_r2(d@));
            assert(absi(ga as int * (ATTRACTOR_MASS as int)) <= (absi(ga as int) * (
            ATTRACTOR_MASS as int)) * (r2f as int) && absi(ga as int) * (ATTRACTOR_MASS as int)
                >= 0 && absi(ga as int) * (ATTRACTOR_MASS as int) <= (TUNABLE_LIMIT as int) * (
            ATTRACTOR_MASS as int)) by (nonlinear_arith)
                requires
                    r2f >= 1,
                    absi(ga as int) <= TUNABLE_LIMIT as int,
            ;
            lemma_div_t_le(
                ga as int * (ATTRACTOR_MASS as int),
                r2f as int,
                absi(ga as int) * (ATTRACTOR_MASS as int),
            );
        }
        let m = mul_div_t(ga, ATTRACTOR_MASS, r2f);
        let pull = scaled_dir_e(d, m);
        proof {
            lemma_attr_contrib_bound(vps[i as int], vats[k as int], ga as int);
            assert(pull@ == attractor_accel(vps[i as int], vats[k as int], ga as int));
        }
        acc = acc.add(pull);
        k = k + 1;
        proof {
            assert(acc@ == vadd(
                pairs_full,
                accel_attrs_upto(vps[i as int], vats, k as int, ga as int),
            ));
        }
    }
    acc
}

/// One frame of the force accumulator: velocities are rewritten in place to
/// `new_velocity` of each particle, from a read-only position snapshot.
#[verifier::loop_isolation(false)]
pub fn step_frame(
    positions: &Vec<Vec2i>,
    velocities: &mut Vec<Vec2i>,
    attractors: &Vec<Vec2i>,
    g: i64,
    ga: i64,
    max_acc: i64,
    dt_ms: u64,
)
    requires
        old(velocities)@.len() == positions@.len(),
        positions@.len() <= MAX_PARTICLE_COUNT as int,
        attractors@.len() <= MAX_ATTRACTOR_COUNT as int,
        all_bounded(views_of(positions@), COORD_LIMIT as int),
        all_bounded(views_of(attractors@), COORD_LIMIT as int),
        all_bounded(views_of(old(velocities)@), VEL_LIMIT as int),
        absi(g as int) <= TUNABLE_LIMIT as int,
        absi(ga as int) <= TUNABLE_LIMIT as int,
        absi(max_acc as int) <= TUNABLE_LIMIT as int,
        dt_ms <= DT_LIMIT_MS,
    ensures
        final(velocities)@.len() == old(velocities)@.len(),
        forall|p: int|
            0 <= p < old(velocities)@.len() ==> final(velocities)@[p]@ == new_velocity(
                views_of(positions@),
                p,
                old(velocities)@[p]@,
                views_of(attractors@),
                g as int,
                ga as int,
                max_acc as int,
                dt_ms as int,
            ),
{
    let ghost vps = views_of(positions@);
    let ghost vats = views_of(attractors@);
    let n = positions.len();
    let mut i: usize = 0;
    while i < n
        invariant
            i <= n,
            velocities@.len() == n,
            forall|p: int|
                0 <= p < i ==> velocities@[p]@ == new_velocity(
                    vps,
                    p,
                    old(velocities)@[p]@,
                    vats,
                    g as int,
                    ga as int,
                    max_acc as int,
                    dt_ms as int,
                ),
            forall|p: int| i <= p < n ==> velocities@[p] == old(velocities)@[p],
        decreases n - i,
    {
        let a_raw = accel_at(positions, i, attractors, g, ga);
        proof {
            assert(positions@.len() * (TUNABLE_LIMIT as int) <= 65536 * (TUNABLE_LIMIT as int))
                by (nonlinear_arith)
                requires
                    positions@.len() <= 65536,
            ;
            assert(attractors@.len() * ((TUNABLE_LIMIT as int) * (ATTRACTOR_MASS as int)) <= 4096
                * ((TUNABLE_LIMIT as int) * (ATTRACTOR_MASS as int))) by (nonlinear_arith)
                requires
                    attractors@.len() <= 4096,
            ;
            assert(bounded(a_raw@, COMP_LIMIT as int));
        }
        let a = clamp_len_e(a_raw, max_acc);
        proof {
            crate::vec2::lemma_clamp_comp(a_raw@, max_acc as int);
            let dt = dt_ms as int;
            assert(absi(a@.x * dt) <= ((TUNABLE_LIMIT as int) * 1000) * 1000 && absi(a@.y * dt)
                <= ((TUNABLE_LIMIT as int) * 1000) * 1000) by (nonlinear_arith)
                requires
                    absi(a@.x) <= TUNABLE_LIMIT as int,
                    absi(a@.y) <= TUNABLE_LIMIT as int,
                    0 <= dt <= 1000000,
            ;
            lemma_div_t_le(a@.x * dt, 1000, (TUNABLE_LIMIT as int) * 1000);
            lemma_div_t_le(a@.y * dt, 1000, (TUNABLE_LIMIT as int) * 1000);
        }
        let dt_i = dt_ms as i64;
        let dvx = mul_div_t(a.x, dt_i, 1000);
        let dvy = mul_div_t(a.y, dt_i, 1000);
        proof {
            assert(velocities@[i as int] == old(velocities)@[i as int]);
            assert(views_of(old(velocities)@)[i as int] == old(velocities)@[i as int]@);
            assert(bounded(old(velocities)@[i as int]@, VEL_LIMIT as int));
        }
        let v_old = velocities[i];
        let v_raw = v_old.add(Vec2i { x: dvx, y: dvy });
        proof {
            assert(v_raw@ == integrate(old(velocities)@[i as int]@, a@, dt_ms as int));
        }
        let v_new = clamp_len_e(v_raw, MAX_PARTICLE_VELOCITY);
        velocities.set(i, v_new);
        i = i + 1;
    }
}

} // verus!
