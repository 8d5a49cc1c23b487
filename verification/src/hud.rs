//! The HUD projection: a read-only rendering of the tunable parameter set
//! into a plain-text block per tunable — name, current value, and the two
//! triggers that adjust it. Enumeration is sorted by name for determinism.

use crate::tunables::{PName, Physics, PhysicsManipulable, Trigger};
use vstd::prelude::*;
use vstd::string::StringExecFns;

verus! {

/// Marker for the on-screen entity that displays the parameter set.
pub struct HUD;

/// The character of one decimal digit.
pub open spec fn dec_digit(d: nat) -> char {
    if d == 0 {
        '0'
    } else if d == 1 {
        '1'
    } else if d == 2 {
        '2'
    } else if d == 3 {
        '3'
    } else if d == 4 {
        '4'
    } else if d == 5 {
        '5'
    } else if d == 6 {
        '6'
    } else if d == 7 {
        '7'
    } else if d == 8 {
        '8'
    } else {
        '9'
    }
}

/// Decimal rendering of a natural number, most significant digit first.
pub open spec fn dec_str(n: nat) -> Seq<char>
    decreases n,
{
    if n < 10 {
        seq![dec_digit(n)]
    } else {
        dec_str(n / 10) + seq![dec_digit(n % 10)]
    }
}

/// Decimal rendering of an integer, with a leading minus sign if negative.
pub open spec fn dec_str_i(v: int) -> Seq<char> {
    if v < 0 {
        seq!['-'] + dec_str((-v) as nat)
    } else {
        dec_str(v as nat)
    }
}

/// The one-character string of a decimal digit.
fn digit_str(d: u64) -> (r: &'static str)
    requires
        d < 10,
    ensures
        r@ == seq![dec_digit(d as nat)],
{
    proof {
        reveal_strlit("0");
        reveal_strlit("1");
        reveal_strlit("2");
        reveal_strlit("3");
        reveal_strlit("4");
        reveal_strlit("5");
        reveal_strlit("6");
        reveal_strlit("7");
        reveal_strlit("8");
        reveal_strlit("9");
    }
    let r: &'static str = if d == 0 {
        "0"
    } else if d == 1 {
        "1"
    } else if d == 2 {
        "2"
    } else if d == 3 {
        "3"
    } else if d == 4 {
        "4"
    } else if d == 5 {
        "5"
    } else if d == 6 {
        "6"
    } else if d == 7 {
        "7"
    } else if d == 8 {
        "8"
    } else {
        "9"
    };
    proof {
        assert(r@ =~= seq![dec_digit(d as nat)]);
    }
    r
}

/// Decimal rendering of a 64-bit natural number.
pub fn u64_dec(n: u64) -> (r: String)
    ensures
        r@ == dec_str(n as nat),
    decreases n,
{
    if n < 10 {
        let d = digit_str(n);
        d.to_owned()
    } else {
        proof {
            assert(n / 10 < n) by (nonlinear_arith)
                requires
                    n >= 10,
            ;
        }
        let mut s = u64_dec(n / 10);
        let d = digit_str(n % 10);
        s.append(d);
        s
    }
}

/// Decimal rendering of a 64-bit signed integer.
pub fn i64_dec(v: i64) -> (r: String)
    ensures
        r@ == dec_str_i(v as int),
{
    if v >= 0 {
        u64_dec(v as u64)
    } else {
        let m: u64 = ((-(v + 1)) as u64) + 1;
        proof {
            assert(m as int == -(v as int));
            reveal_strlit("-");
        }
        let mut s = "-".to_owned();
        proof {
            assert(s@ =~= seq!['-']);
        }
        let digits = u64_dec(m);
        s.append(digits.as_str());
        s
    }
}

/// The display name of a tunable.
pub open spec fn name_seq(n: PName) -> Seq<char> {
    match n {
        PName::MaxAcceleration => "MaxAcceleration"@,
        PName::InterParticleGravity => "InterParticleGravity"@,
        PName::AttractorGravity => "AttractorGravity"@,
    }
}

/// The display name of a tunable.
pub fn name_str(n: PName) -> (r: &'static str)
    ensures
        r@ == name_seq(n),
{
    match n {
        PName::MaxAcceleration => "MaxAcceleration",
        PName::InterParticleGravity => "InterParticleGravity",
        PName::AttractorGravity => "AttractorGravity",
    }
}

/// The display name of a trigger.
pub open spec fn trigger_seq(t: Trigger) -> Seq<char> {
    match t {
        Trigger::KeyM => "KeyM"@,
        Trigger::KeyN => "KeyN"@,
        Trigger::KeyG => "KeyG"@,
        Trigger::KeyF => "KeyF"@,
        Trigger::KeyC => "KeyC"@,
        Trigger::KeyX => "KeyX"@,
    }
}

/// The display name of a trigger.
pub fn trigger_str(t: Trigger) -> (r: &'static str)
    ensures
        r@ == trigger_seq(t),
{
    match t {
        Trigger::KeyM => "KeyM",
        Trigger::KeyN => "KeyN",
        Trigger::KeyG => "KeyG",
        Trigger::KeyF => "KeyF",
        Trigger::KeyC => "KeyC",
        Trigger::KeyX => "KeyX",
    }
}

/// One tunable's display block: its name and value, then the trigger pair.
pub open spec fn block_seq(m: PhysicsManipulable) -> Seq<char> {
    name_seq(m.name) + ": "@ + dec_str_i(m.value as int) + "\n"@ + trigger_seq(m.key_increase)
        + " to increase, "@ + trigger_seq(m.key_decrease) + " to decrease"@
}

/// One tunable's display block.
pub fn block_str(m: &PhysicsManipulable) -> (r: String)
    ensures
        r@ == block_seq(*m),
{
    let mut s = name_str(m.name).to_owned();
    s.append(": ");
    let val = i64_dec(m.value);
    s.append(val.as_str());
    s.append("\n");
    s.append(trigger_str(m.key_increase));
    s.append(" to increase, ");
    s.append(trigger_str(m.key_decrease));
    s.append(" to decrease");
    s
}

/// The whole HUD text: one block per tunable, sorted by name, joined with
/// newlines.
pub open spec fn hud_seq(p: Physics) -> Seq<char> {
    block_seq(p.attractor_gravity) + "\n"@ + block_seq(p.inter_particle_gravity) + "\n"@
        + block_seq(p.max_acceleration)
}

impl Physics {
    /// Renders the parameter set into the display sink. Read-only on the
    /// parameters; the previous display text is replaced whole.
    pub fn update_hud(&self, hud_text: &mut String)
        ensures
            final(hud_text)@ == hud_seq(*self),
    {
        let mut s = block_str(&self.attractor_gravity);
        s.append("\n");
        let b = block_str(&self.inter_particle_gravity);
        s.append(b.as_str());
        s.append("\n");
        let b = block_str(&self.max_acceleration);
        s.append(b.as_str());
        *hud_text = s;
    }
}

} // verus!
