//! The runtime-tunable parameter set: three named physical constants, each
//! with a fixed step size and a pair of increase/decrease triggers. Values
//! are never clamped here; clamping applies only downstream to derived
//! accelerations and velocities.

use crate::math::absi;
use vstd::prelude::*;

verus! {

/// Names of the three tunable physical constants. The set is closed: lookup
/// by name can never miss in a correct build.
#[derive(Clone, Copy, PartialEq, Eq, Structural, Debug)]
pub enum PName {
    MaxAcceleration,
    InterParticleGravity,
    AttractorGravity,
}

/// Input triggers that adjust the tunables, one pair per parameter.
#[derive(Clone, Copy, PartialEq, Eq, Structural, Debug)]
pub enum Trigger {
    KeyM,
    KeyN,
    KeyG,
    KeyF,
    KeyC,
    KeyX,
}

/// Pressed/held state of every trigger for the current frame, polled once by
/// the host before the parameter update runs.
#[derive(Clone, Copy, PartialEq, Eq, Structural, Debug)]
pub struct InputState {
    pub key_m: bool,
    pub key_n: bool,
    pub key_g: bool,
    pub key_f: bool,
    pub key_c: bool,
    pub key_x: bool,
}

impl InputState {
    /// No trigger held.
    pub fn released() -> (r: InputState)
        ensures
            r == (InputState {
                key_m: false,
                key_n: false,
                key_g: false,
                key_f: false,
                key_c: false,
                key_x: false,
            }),
    {
        InputState { key_m: false, key_n: false, key_g: false, key_f: false, key_c: false, key_x: false }
    }

    /// Whether the given trigger is held this frame.
    pub open spec fn spec_pressed(self, t: Trigger) -> bool {
        match t {
            Trigger::KeyM => self.key_m,
            Trigger::KeyN => self.key_n,
            Trigger::KeyG => self.key_g,
            Trigger::KeyF => self.key_f,
            Trigger::KeyC => self.key_c,
            Trigger::KeyX => self.key_x,
        }
    }

    /// Whether the given trigger is held this frame.
    pub fn pressed(&self, t: Trigger) -> (r: bool)
        ensures
            r == self.spec_pressed(t),
    {
        match t {
            Trigger::KeyM => self.key_m,
            Trigger::KeyN => self.key_n,
            Trigger::KeyG => self.key_g,
            Trigger::KeyF => self.key_f,
            Trigger::KeyC => self.key_c,
            Trigger::KeyX => self.key_x,
        }
    }
}

/// One tunable: current value, step size, and its two triggers.
#[derive(Clone, Copy, PartialEq, Eq, Structural, Debug)]
pub struct PhysicsManipulable {
    pub key_increase: Trigger,
    pub key_decrease: Trigger,
    pub delta: i64,
    pub value: i64,
    pub name: PName,
}

/// One frame of trigger-driven adjustment: add the step while the increase
/// trigger is held, subtract it while the decrease trigger is held. Both at
/// once compose additively to no change.
pub open spec fn tuned_step(v: int, d: int, inc: bool, dec: bool) -> int {
    v + (if inc {
        d
    } else {
        0
    }) - (if dec {
        d
    } else {
        0
    })
}

impl PhysicsManipulable {
    /// Applies one frame of input to the value. No smoothing, no bounds: the
    /// value may be driven negative or to any magnitude.
    pub fn handle_keys(&mut self, inc_pressed: bool, dec_pressed: bool)
        requires
            absi(old(self).value as int) + absi(old(self).delta as int) <= i64::MAX as int,
        ensures
            final(self).value as int == tuned_step(
                old(self).value as int,
                old(self).delta as int,
                inc_pressed,
                dec_pressed,
            ),
            final(self).delta == old(self).delta,
            final(self).name == old(self).name,
            final(self).key_increase == old(self).key_increase,
            final(self).key_decrease == old(self).key_decrease,
    {
        if inc_pressed {
            self.value = self.value + self.delta;
        }
        if dec_pressed {
            self.value = self.value - self.delta;
        }
    }
}

/// The full parameter set, one instance per name.
#[derive(Clone, Copy, PartialEq, Eq, Structural, Debug)]
pub struct Physics {
    pub max_acceleration: PhysicsManipulable,
    pub inter_particle_gravity: PhysicsManipulable,
    pub attractor_gravity: PhysicsManipulable,
}

impl Physics {
    /// The tunable a name designates.
    pub open spec fn spec_get(self, name: PName) -> PhysicsManipulable {
        match name {
            PName::MaxAcceleration => self.max_acceleration,
            PName::InterParticleGravity => self.inter_particle_gravity,
            PName::AttractorGravity => self.attractor_gravity,
        }
    }

    /// Each slot carries the name and the trigger pair it was created with.
    pub open spec fn wf(self) -> bool {
        &&& self.max_acceleration.name == PName::MaxAcceleration
        &&& self.max_acceleration.key_increase == Trigger::KeyM
        &&& self.max_acceleration.key_decrease == Trigger::KeyN
        &&& self.inter_particle_gravity.name == PName::InterParticleGravity
        &&& self.inter_particle_gravity.key_increase == Trigger::KeyG
        &&& self.inter_particle_gravity.key_decrease == Trigger::KeyF
        &&& self.attractor_gravity.name == PName::AttractorGravity
        &&& self.attractor_gravity.key_increase == Trigger::KeyC
        &&& self.attractor_gravity.key_decrease == Trigger::KeyX
    }

    /// Current value of the named tunable. The name set is closed, so the
    /// lookup always finds its slot; the `Option` keeps "absent" distinct
    /// from any fabricated value for callers probing the contract.
    pub fn get_value(&self, name: PName) -> (r: Option<i64>)
        ensures
            r == Some(self.spec_get(name).value),
    {
        match name {
            PName::MaxAcceleration => Some(self.max_acceleration.value),
            PName::InterParticleGravity => Some(self.inter_particle_gravity.value),
            PName::AttractorGravity => Some(self.attractor_gravity.value),
        }
    }

    /// Borrow of the named tunable, `None` never occurring for the closed
    /// name set.
    pub fn get(&self, name: PName) -> (r: Option<&PhysicsManipulable>)
        ensures
            r is Some,
            *r->Some_0 == self.spec_get(name),
    {
        match name {
            PName::MaxAcceleration => Some(&self.max_acceleration),
            PName::InterParticleGravity => Some(&self.inter_particle_gravity),
            PName::AttractorGravity => Some(&self.attractor_gravity),
        }
    }

    /// One frame of trigger-driven adjustment applied to every tunable.
    pub fn handle_input(&mut self, input: &InputState)
        requires
            absi(old(self).max_acceleration.value as int) + absi(
                old(self).max_acceleration.delta as int,
            ) <= i64::MAX as int,
            absi(old(self).inter_particle_gravity.value as int) + absi(
                old(self).inter_particle_gravity.delta as int,
            ) <= i64::MAX as int,
            absi(old(self).attractor_gravity.value as int) + absi(
                old(self).attractor_gravity.delta as int,
            ) <= i64::MAX as int,
        ensures
            final(self).max_acceleration.value as int == tuned_step(
                old(self).max_acceleration.value as int,
                old(self).max_acceleration.delta as int,
                input.spec_pressed(old(self).max_acceleration.key_increase),
                input.spec_pressed(old(self).max_acceleration.key_decrease),
            ),
            final(self).inter_particle_gravity.value as int == tuned_step(
                old(self).inter_particle_gravity.value as int,
                old(self).inter_particle_gravity.delta as int,
                input.spec_pressed(old(self).inter_particle_gravity.key_increase),
                input.spec_pressed(old(self).inter_particle_gravity.key_decrease),
            ),
            final(self).attractor_gravity.value as int == tuned_step(
                old(self).attractor_gravity.value as int,
                old(self).attractor_gravity.delta as int,
                input.spec_pressed(old(self).attractor_gravity.key_increase),
                input.spec_pressed(old(self).attractor_gravity.key_decrease),
            ),
            final(self).max_acceleration.delta == old(self).max_acceleration.delta,
            final(self).inter_particle_gravity.delta == old(self).inter_particle_gravity.delta,
            final(self).attractor_gravity.delta == old(self).attractor_gravity.delta,
            final(self).wf() == old(self).wf(),
    {
        let inc = self.pressed_of(input, self.max_acceleration.key_increase);
        let dec = self.pressed_of(input, self.max_acceleration.key_decrease);
        self.max_acceleration.handle_keys(inc, dec);
        let inc = self.pressed_of(input, self.inter_particle_gravity.key_increase);
        let dec = self.pressed_of(input, self.inter_particle_gravity.key_decrease);
        self.inter_particle_gravity.handle_keys(inc, dec);
        let inc = self.pressed_of(input, self.attractor_gravity.key_increase);
        let dec = self.pressed_of(input, self.attractor_gravity.key_decrease);
        self.attractor_gravity.handle_keys(inc, dec);
    }

    /// Reads one trigger from the polled input snapshot.
    fn pressed_of(&self, input: &InputState, t: Trigger) -> (r: bool)
        ensures
            r == input.spec_pressed(t),
    {
        input.pressed(t)
    }
}

impl Default for Physics {
    /// The documented startup defaults.
    fn default() -> (r: Physics)
        ensures
            r.wf(),
            r.max_acceleration.value == 4000,
            r.max_acceleration.delta == 100,
            r.inter_particle_gravity.value == 400000,
            r.inter_particle_gravity.delta == 10000,
            r.attractor_gravity.value == 50000,
            r.attractor_gravity.delta == 1000,
    {
        Physics {
            max_acceleration: PhysicsManipulable {
                name: PName::MaxAcceleration,
                value: 4000,
                key_increase: Trigger::KeyM,
                key_decrease: Trigger::KeyN,
                delta: 100,
            },
            inter_particle_gravity: PhysicsManipulable {
                name: PName::InterParticleGravity,
                value: 400000,
                key_increase: Trigger::KeyG,
                key_decrease: Trigger::KeyF,
                delta: 10000,
            },
            attractor_gravity: PhysicsManipulable {
                name: PName::AttractorGravity,
                value: 50000,
                key_increase: Trigger::KeyC,
                key_decrease: Trigger::KeyX,
                delta: 1000,
            },
        }
    }
}

/// The value after `t` frames in which only the increase trigger is held.
pub open spec fn held_increase(v: int, d: int, t: nat) -> int
    decreases t,
{
    if t == 0 {
        v
    } else {
        tuned_step(held_increase(v, d, (t - 1) as nat), d, true, false)
    }
}

/// Holding only the increase trigger for `t` frames raises the value by
/// exactly `t` times the step; holding both triggers for a frame leaves the
/// value unchanged.
pub proof fn lemma_tuning(v: int, d: int, t: nat)
    ensures
        held_increase(v, d, t) == v + t * d,
        tuned_step(v, d, true, true) == v,
    decreases t,
{
    if t == 0 {
        assert(0 * d == 0) by (nonlinear_arith);
    } else {
        lemma_tuning(v, d, (t - 1) as nat);
        assert(t * d == (t - 1) * d + d) by (nonlinear_arith);
    }
}

} // verus!
