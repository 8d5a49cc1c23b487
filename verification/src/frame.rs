//! Frame orchestration: turning the host's pointer and touch readings into
//! the frame's world-space attractor list, and running one simulation tick
//! with the skip policy for missing dependencies — a frame either completes
//! or leaves every velocity untouched.

use crate::kernel::{
    all_bounded, new_velocity, step_frame, views_of, COORD_LIMIT, DT_LIMIT_MS, MAX_ATTRACTOR_COUNT,
    MAX_PARTICLE_COUNT, TUNABLE_LIMIT, VEL_LIMIT,
};
use crate::math::absi;
use crate::tunables::Physics;
use crate::vec2::{bounded, GVec2, Vec2i};
use vstd::prelude::*;

verus! {

/// One pointer or touch reading, after the host attempted the
/// screen-to-world mapping for it.
#[derive(Clone, Copy, PartialEq, Eq, Structural, Debug)]
pub enum PointerSample {
    /// No contact this frame (for the pointer: outside the window).
    NoContact,
    /// A contact whose coordinate had no valid world mapping; it is dropped
    /// silently without aborting the frame.
    Unmapped,
    /// A contact resolved to a world-space point.
    World(Vec2i),
}

/// What one reading contributes to the attractor list.
pub open spec fn sample_part(s: PointerSample) -> Seq<GVec2> {
    match s {
        PointerSample::World(p) => seq![p@],
        _ => Seq::empty(),
    }
}

/// The world points among readings with index below `k`, in order.
pub open spec fn resolved_upto(s: Seq<PointerSample>, k: int) -> Seq<GVec2>
    decreases k,
{
    if k <= 0 {
        Seq::empty()
    } else {
        resolved_upto(s, k - 1) + sample_part(s[k - 1])
    }
}

/// The frame's attractor list: the pointer first, then every touch contact,
/// unmapped and absent readings omitted.
pub open spec fn resolved_attractors(cursor: PointerSample, touches: Seq<PointerSample>) -> Seq<
    GVec2,
> {
    sample_part(cursor) + resolved_upto(touches, touches.len() as int)
}

/// A reading's world point, if any, is within the coordinate bound.
pub open spec fn sample_ok(s: PointerSample) -> bool {
    match s {
        PointerSample::World(p) => bounded(p@, COORD_LIMIT as int),
        _ => true,
    }
}

/// Every reading of the frame is within the coordinate bound.
pub open spec fn samples_bounded(cursor: PointerSample, touches: Seq<PointerSample>) -> bool {
    &&& sample_ok(cursor)
    &&& forall|i: int| 0 <= i < touches.len() ==> sample_ok(#[trigger] touches[i])
}

/// Builds the frame's attractor list from the host's readings. A reading
/// that could not be mapped is dropped; the rest keep their order.
#[verifier::loop_isolation(false)]
pub fn resolve_attractors(cursor: &PointerSample, touches: &Vec<PointerSample>) -> (r: Vec<Vec2i>)
    requires
        samples_bounded(*cursor, touches@),
    ensures
        views_of(r@) == resolved_attractors(*cursor, touches@),
        r@.len() <= touches@.len() + 1,
        forall|q: int| 0 <= q < r@.len() ==> bounded(#[trigger] r@[q]@, COORD_LIMIT as int),
{
    let mut out: Vec<Vec2i> = Vec::new();
    match cursor {
        PointerSample::World(p) => out.push(*p),
        _ => {},
    }
    proof {
        assert(views_of(out@) =~= sample_part(*cursor));
    }
    let mut t: usize = 0;
    while t < touches.len()
        invariant
            t <= touches@.len(),
            out@.len() <= t + 1,
            views_of(out@) =~= sample_part(*cursor) + resolved_upto(touches@, t as int),
            forall|q: int| 0 <= q < out@.len() ==> bounded(#[trigger] out@[q]@, COORD_LIMIT as int),
        decreases touches@.len() - t,
    {
        match touches[t] {
            PointerSample::World(p) => out.push(p),
            _ => {},
        }
        t = t + 1;
        proof {
            assert(resolved_upto(touches@, t as int) == resolved_upto(touches@, t as int - 1)
                + sample_part(touches@[t as int - 1]));
            assert(views_of(out@) =~= (sample_part(*cursor) + resolved_upto(
                touches@,
                t as int - 1,
            )) + sample_part(touches@[t as int - 1]));
            assert(views_of(out@) =~= sample_part(*cursor) + resolved_upto(touches@, t as int));
        }
    }
    proof {
        assert(views_of(out@) == resolved_attractors(*cursor, touches@));
    }
    out
}

/// Outcome of one frame tick: either every velocity was rewritten by the
/// kernel, or a dependency was missing and the frame was skipped whole.
#[derive(Clone, Copy, PartialEq, Eq, Structural, Debug)]
pub enum FrameOutcome {
    /// The kernel ran and every velocity holds its new value.
    Updated,
    /// No camera: nothing can be mapped to world space; physics pauses.
    SkippedMissingCamera,
    /// No window: the pointer cannot be read; physics pauses.
    SkippedMissingWindow,
}

/// One frame of the simulation. If the camera or the window dependency is
/// absent the frame is skipped and velocities are left bit-identical;
/// otherwise the attractor list is resolved and the kernel rewrites every
/// velocity.
pub fn run_frame(
    camera_present: bool,
    window_present: bool,
    cursor: &PointerSample,
    touches: &Vec<PointerSample>,
    positions: &Vec<Vec2i>,
    velocities: &mut Vec<Vec2i>,
    params: &Physics,
    dt_ms: u64,
) -> (r: FrameOutcome)
    requires
        old(velocities)@.len() == positions@.len(),
        positions@.len() <= MAX_PARTICLE_COUNT as int,
        touches@.len() + 1 <= MAX_ATTRACTOR_COUNT as int,
        all_bounded(views_of(positions@), COORD_LIMIT as int),
        all_bounded(views_of(old(velocities)@), VEL_LIMIT as int),
        samples_bounded(*cursor, touches@),
        absi(params.inter_particle_gravity.value as int) <= TUNABLE_LIMIT as int,
        absi(params.attractor_gravity.value as int) <= TUNABLE_LIMIT as int,
        absi(params.max_acceleration.value as int) <= TUNABLE_LIMIT as int,
        dt_ms <= DT_LIMIT_MS,
    ensures
        !camera_present ==> r == FrameOutcome::SkippedMissingCamera && final(velocities)@ == old(velocities)@,
        camera_present && !window_present ==> r == FrameOutcome::SkippedMissingWindow && final(velocities)@ == old(velocities)@,
        camera_present && window_present ==> ({
            &&& r == FrameOutcome::Updated
            &&& final(velocities)@.len() == old(velocities)@.len()
            &&& forall|p: int|
                0 <= p < old(velocities)@.len() ==> final(velocities)@[p]@ == new_velocity(
                    views_of(positions@),
                    p,
                    old(velocities)@[p]@,
                    resolved_attractors(*cursor, touches@),
                    params.inter_particle_gravity.value as int,
                    params.attractor_gravity.value as int,
                    params.max_acceleration.value as int,
                    dt_ms as int,
                )
        }),
{
    if !camera_present {
        return FrameOutcome::SkippedMissingCamera;
    }
    if !window_present {
        return FrameOutcome::SkippedMissingWindow;
    }
    let attractors = resolve_attractors(cursor, touches);
    proof {
        assert forall|q: int| 0 <= q < views_of(attractors@).len() implies bounded(
            #[trigger] views_of(attractors@)[q],
            COORD_LIMIT as int,
        ) by {
            assert(views_of(attractors@)[q] == attractors@[q]@);
        }
    }
    step_frame(
        positions,
        velocities,
        &attractors,
        params.inter_particle_gravity.value,
        params.attractor_gravity.value,
        params.max_acceleration.value,
        dt_ms,
    );
    FrameOutcome::Updated
}

} // verus!
