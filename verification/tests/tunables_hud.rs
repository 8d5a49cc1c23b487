use gravity_game::hud::{i64_dec, u64_dec};
use gravity_game::tunables::{InputState, PName, Physics, PhysicsManipulable, Trigger};

fn default_physics() -> Physics {
    Physics::default()
}

#[test]
fn default_values_and_steps() {
    let p = default_physics();
    assert_eq!(p.get_value(PName::MaxAcceleration), Some(4000));
    assert_eq!(p.get_value(PName::InterParticleGravity), Some(400000));
    assert_eq!(p.get_value(PName::AttractorGravity), Some(50000));
    let m = p.get(PName::MaxAcceleration).unwrap();
    assert_eq!(m.delta, 100);
    assert_eq!(m.name, PName::MaxAcceleration);
}

#[test]
fn increase_held_for_three_frames() {
    // Holding only the increase trigger for T frames with step d raises the
    // value by exactly T * d.
    let mut p = default_physics();
    let mut input = InputState::released();
    input.key_g = true;
    p.handle_input(&input);
    p.handle_input(&input);
    p.handle_input(&input);
    assert_eq!(p.get_value(PName::InterParticleGravity), Some(430000));
    assert_eq!(p.get_value(PName::MaxAcceleration), Some(4000));
}

#[test]
fn both_triggers_cancel() {
    let mut p = default_physics();
    let mut input = InputState::released();
    input.key_m = true;
    input.key_n = true;
    p.handle_input(&input);
    assert_eq!(p.get_value(PName::MaxAcceleration), Some(4000));
}

#[test]
fn decrease_can_drive_value_negative() {
    let mut p = default_physics();
    let mut input = InputState::released();
    input.key_x = true;
    for _ in 0..60 {
        p.handle_input(&input);
    }
    assert_eq!(p.get_value(PName::AttractorGravity), Some(-10000));
}

#[test]
fn handle_keys_single_tunable() {
    let mut m = PhysicsManipulable {
        key_increase: Trigger::KeyM,
        key_decrease: Trigger::KeyN,
        delta: 7,
        value: 100,
        name: PName::MaxAcceleration,
    };
    m.handle_keys(true, false);
    assert_eq!(m.value, 107);
    m.handle_keys(false, true);
    assert_eq!(m.value, 100);
    m.handle_keys(true, true);
    assert_eq!(m.value, 100);
}

#[test]
fn decimal_rendering() {
    assert_eq!(u64_dec(0).as_str(), "0");
    assert_eq!(u64_dec(907).as_str(), "907");
    assert_eq!(i64_dec(-5).as_str(), "-5");
    assert_eq!(i64_dec(400000).as_str(), "400000");
    assert_eq!(i64_dec(i64::MIN).as_str(), "-9223372036854775808");
}

#[test]
fn hud_text_sorted_by_name() {
    let p = default_physics();
    let mut text = String::new();
    p.update_hud(&mut text);
    let expected = "AttractorGravity: 50000\nKeyC to increase, KeyX to decrease\n\
                    InterParticleGravity: 400000\nKeyG to increase, KeyF to decrease\n\
                    MaxAcceleration: 4000\nKeyM to increase, KeyN to decrease";
    assert_eq!(text.as_str(), expected);
}

#[test]
fn hud_shows_adjusted_value() {
    let mut p = default_physics();
    let mut input = InputState::released();
    input.key_n = true;
    p.handle_input(&input);
    let mut text = String::new();
    p.update_hud(&mut text);
    assert!(text.contains("MaxAcceleration: 3900"));
}
