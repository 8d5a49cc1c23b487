use gravity_game::frame::{resolve_attractors, run_frame, FrameOutcome, PointerSample};
use gravity_game::grid::grid_positions;
use gravity_game::kernel::accel_at;
use gravity_game::tunables::Physics;
use gravity_game::vec2::Vec2i;

fn v(x: i64, y: i64) -> Vec2i {
    Vec2i { x, y }
}

#[test]
fn pure_pair_gravity_two_particles() {
    // Separation 10 along x, gravity 400000: magnitude 400000 / 100 = 4000,
    // all of it along x. Accelerations are equal and opposite.
    let positions = vec![v(0, 0), v(10, 0)];
    let a0 = accel_at(&positions, 0, &vec![], 400000, 50000);
    let a1 = accel_at(&positions, 1, &vec![], 400000, 50000);
    assert_eq!(a0, v(4000, 0));
    assert_eq!(a1, v(-4000, 0));
}

#[test]
fn single_particle_feels_nothing() {
    let positions = vec![v(37, -12)];
    let a = accel_at(&positions, 0, &vec![], 400000, 50000);
    assert_eq!(a, v(0, 0));
}

#[test]
fn coincident_particles_contribute_zero() {
    // Identical positions: the direction is the zero vector, no NaN analog,
    // no blow-up from the floored squared distance.
    let positions = vec![v(5, 5), v(5, 5)];
    let a0 = accel_at(&positions, 0, &vec![], 400000, 50000);
    let a1 = accel_at(&positions, 1, &vec![], 400000, 50000);
    assert_eq!(a0, v(0, 0));
    assert_eq!(a1, v(0, 0));
}

#[test]
fn force_falls_off_with_separation() {
    let near = vec![v(0, 0), v(10, 0)];
    let far = vec![v(0, 0), v(20, 0)];
    let a_near = accel_at(&near, 0, &vec![], 400000, 0);
    let a_far = accel_at(&far, 0, &vec![], 400000, 0);
    assert!(a_far.x < a_near.x);
    assert_eq!(a_near.x, 4000);
    assert_eq!(a_far.x, 1000);
}

#[test]
fn attractor_pull() {
    // One particle, one attractor 10 away: 50000 * 10000 / 100 = 5000000.
    let positions = vec![v(0, 0)];
    let attractors = vec![v(10, 0)];
    let a = accel_at(&positions, 0, &attractors, 400000, 50000);
    assert_eq!(a, v(5000000, 0));
}

#[test]
fn resolver_keeps_order_and_drops_failures() {
    let cursor = PointerSample::World(v(1, 2));
    let touches = vec![
        PointerSample::Unmapped,
        PointerSample::World(v(3, 4)),
        PointerSample::NoContact,
        PointerSample::World(v(5, 6)),
    ];
    let r = resolve_attractors(&cursor, &touches);
    assert_eq!(r, vec![v(1, 2), v(3, 4), v(5, 6)]);
}

#[test]
fn resolver_empty_when_nothing_maps() {
    let r = resolve_attractors(&PointerSample::NoContact, &vec![PointerSample::Unmapped]);
    assert!(r.is_empty());
}

#[test]
fn frame_updates_and_clamps_speed() {
    // Raw acceleration (4000, 0) equals the cap exactly, so it passes the
    // acceleration clamp untouched; over 1000 ms it adds 4000 to the
    // velocity, which the speed clamp scales down to exactly 500.
    let positions = vec![v(0, 0), v(10, 0)];
    let mut velocities = vec![v(0, 0), v(0, 0)];
    let outcome = run_frame(
        true,
        true,
        &PointerSample::NoContact,
        &vec![],
        &positions,
        &mut velocities,
        &Physics::default(),
        1000,
    );
    assert_eq!(outcome, FrameOutcome::Updated);
    assert_eq!(velocities[0], v(500, 0));
    assert_eq!(velocities[1], v(-500, 0));
}

#[test]
fn frame_skipped_without_camera() {
    let positions = vec![v(0, 0), v(10, 0)];
    let mut velocities = vec![v(7, -3), v(2, 9)];
    let before = velocities.clone();
    let outcome = run_frame(
        false,
        true,
        &PointerSample::World(v(1, 1)),
        &vec![],
        &positions,
        &mut velocities,
        &Physics::default(),
        16,
    );
    assert_eq!(outcome, FrameOutcome::SkippedMissingCamera);
    assert_eq!(velocities, before);
}

#[test]
fn frame_skipped_without_window() {
    let positions = vec![v(0, 0)];
    let mut velocities = vec![v(1, 2)];
    let before = velocities.clone();
    let outcome = run_frame(
        true,
        false,
        &PointerSample::NoContact,
        &vec![],
        &positions,
        &mut velocities,
        &Physics::default(),
        16,
    );
    assert_eq!(outcome, FrameOutcome::SkippedMissingWindow);
    assert_eq!(velocities, before);
}

#[test]
fn zero_elapsed_time_keeps_slow_velocities() {
    let positions = vec![v(0, 0), v(10, 0)];
    let mut velocities = vec![v(3, 4), v(-1, 0)];
    let outcome = run_frame(
        true,
        true,
        &PointerSample::NoContact,
        &vec![],
        &positions,
        &mut velocities,
        &Physics::default(),
        0,
    );
    assert_eq!(outcome, FrameOutcome::Updated);
    assert_eq!(velocities[0], v(3, 4));
    assert_eq!(velocities[1], v(-1, 0));
}

#[test]
fn spawn_grid_two_by_two() {
    let g = grid_positions(2, 5);
    assert_eq!(g.len(), 4);
    assert_eq!(g[0], v(-5, -5));
    assert_eq!(g[1], v(-5, 5));
    assert_eq!(g[2], v(5, -5));
    assert_eq!(g[3], v(5, 5));
}

#[test]
fn spawn_grid_single_particle_at_origin() {
    let g = grid_positions(1, 7);
    assert_eq!(g.len(), 1);
    assert_eq!(g[0], v(0, 0));
}

#[test]
fn spawn_grid_default_width() {
    let n = gravity_game::SPAWN_GRID_WIDTH;
    let g = grid_positions(n, 5);
    assert_eq!(g.len(), n * n);
    // Centered: the full layout is symmetric about the origin.
    let first = g[0];
    let last = g[n * n - 1];
    assert_eq!(first.x, -last.x);
    assert_eq!(first.y, -last.y);
}
