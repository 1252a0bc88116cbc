//! The row of alarm lights next to the screen.
//!
//! Think of one red light per error, then one yellow light per warning,
//! then darkness without end.  The physical lights show `NUM_LIGHTS` of
//! these in a row, starting at the scroll position of the message list, so
//! that the lights stay in step with the messages on screen.  With nothing
//! to report the first light is green.

use vstd::prelude::*;

verus! {

/// Number of lights.
pub const NUM_LIGHTS: usize = 4;

/// What one light shows.
#[derive(Debug, Clone, Copy, PartialEq, Eq, Structural)]
pub enum Light {
    /// Dark.
    Off,
    /// Green: all is well.
    Idle,
    /// Yellow.
    Warning,
    /// Red.
    Error,
}

impl Light {
    /// The intensities of the red and the green element, in percent.
    pub open spec fn spec_levels(&self) -> (u8, u8) {
        match *self {
            Light::Off => (0u8, 0u8),
            Light::Idle => (0u8, 100u8),
            Light::Warning => (100u8, 100u8),
            Light::Error => (100u8, 0u8),
        }
    }

    /// The intensities of the red and the green element, in percent.
    #[verifier::when_used_as_spec(spec_levels)]
    pub fn levels(&self) -> (rg: (u8, u8))
        ensures
            rg == self.spec_levels(),
    {
        match *self {
            Light::Off => (0, 0),
            Light::Idle => (0, 100),
            Light::Warning => (100, 100),
            Light::Error => (100, 0),
        }
    }
}

/// The light at `position` of the endless row: errors first, then
/// warnings, then darkness.
pub open spec fn light_at(errors: nat, warnings: nat, position: nat) -> Light {
    if position < errors {
        Light::Error
    } else if position < errors + warnings {
        Light::Warning
    } else {
        Light::Off
    }
}

/// What the lights show for `errors` errors and `warnings` warnings when
/// the message list is scrolled to `scroll`.
pub open spec fn lights(errors: nat, warnings: nat, scroll: nat) -> Seq<Light> {
    if errors == 0 && warnings == 0 {
        Seq::new(
            NUM_LIGHTS as nat,
            |i: int|
                if i == 0 {
                    Light::Idle
                } else {
                    Light::Off
                },
        )
    } else {
        Seq::new(NUM_LIGHTS as nat, |i: int| light_at(errors, warnings, (scroll + i) as nat))
    }
}

fn light_for(errors: usize, warnings: usize, scroll: usize, i: usize) -> (light: Light)
    ensures
        light == light_at(errors as nat, warnings as nat, (scroll + i) as nat),
{
    if scroll < errors {
        let left = errors - scroll;
        if i < left {
            Light::Error
        } else if i - left < warnings {
            Light::Warning
        } else {
            Light::Off
        }
    } else {
        let past = scroll - errors;
        if past < warnings && i < warnings - past {
            Light::Warning
        } else {
            Light::Off
        }
    }
}

/// Computes what the lights show.
pub fn indicator_lights(errors: usize, warnings: usize, scroll: usize) -> (out: [Light; NUM_LIGHTS])
    ensures
        out@ == lights(errors as nat, warnings as nat, scroll as nat),
{
    let out = if errors == 0 && warnings == 0 {
        [Light::Idle, Light::Off, Light::Off, Light::Off]
    } else {
        [
            light_for(errors, warnings, scroll, 0),
            light_for(errors, warnings, scroll, 1),
            light_for(errors, warnings, scroll, 2),
            light_for(errors, warnings, scroll, 3),
        ]
    };
    assert(out@ =~= lights(errors as nat, warnings as nat, scroll as nat));
    out
}

} // verus!
