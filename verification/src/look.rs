//! The look direction while possessing: yaw and pitch in radians, as single-precision bit
//! patterns. The camera and the unit's aim read the same direction.

use vstd::prelude::*;

use crate::ieee::{at_most32, clamp32, clamped32, less32, nan32};

verus! {

/// Bit pattern of 1.40, just under a quarter turn.
pub const PITCH_LIMIT: u32 = 0x3fb3_3333;

/// Bit pattern of -1.40.
pub const PITCH_FLOOR: u32 = 0xbfb3_3333;

/// The look direction.
#[derive(Clone, Copy, Debug, PartialEq, Eq, Structural)]
pub struct Look {
    pub yaw: u32,
    pub pitch: u32,
}

impl Look {
    /// Straight ahead.
    pub fn new() -> (r: Look)
        ensures
            r == (Look { yaw: 0, pitch: 0 }),
    {
        Look { yaw: 0, pitch: 0 }
    }
}

/// The look direction with the pitch held within the limit.
pub open spec fn looking(yaw: u32, pitch: u32) -> Look {
    Look { yaw, pitch: clamped32(pitch, PITCH_FLOOR, PITCH_LIMIT) }
}

/// Set the look direction. The pitch is held within the limit.
pub fn seed(s: &mut Look, yaw: u32, pitch: u32)
    ensures
        *final(s) == looking(yaw, pitch),
{
    s.yaw = yaw;
    s.pitch = clamp32(pitch, PITCH_FLOOR, PITCH_LIMIT);
}

/// Take over the direction that a movement of the mouse leads to: `yaw` is the yaw plus the
/// movement, `pitch` the pitch less the movement. The pitch is held within the limit.
pub fn add(s: &mut Look, yaw: u32, pitch: u32)
    ensures
        *final(s) == looking(yaw, pitch),
{
    s.yaw = yaw;
    s.pitch = clamp32(pitch, PITCH_FLOOR, PITCH_LIMIT);
}

/// The look direction: yaw and pitch.
pub fn yaw_pitch_rad(s: &Look) -> (r: (u32, u32))
    ensures
        r == (s.yaw, s.pitch),
{
    (s.yaw, s.pitch)
}

/// The pitch never leaves the limit, unless it is not a number.
pub proof fn law_pitch_limited(pitch: u32)
    ensures
        nan32(pitch) || (at_most32(PITCH_FLOOR, clamped32(pitch, PITCH_FLOOR, PITCH_LIMIT))
            && at_most32(clamped32(pitch, PITCH_FLOOR, PITCH_LIMIT), PITCH_LIMIT)),
{
}

/// A look direction has the yaw that was given, and the pitch that was given where that is between
/// -1.4 and 1.4; beyond, it has the nearer of the two.
pub proof fn law_look_follows(yaw: u32, pitch: u32)
    requires
        !nan32(pitch),
    ensures
        looking(yaw, pitch).yaw == yaw,
        less32(pitch, 0xbfb3_3333) ==> looking(yaw, pitch).pitch == 0xbfb3_3333,
        less32(0x3fb3_3333, pitch) ==> looking(yaw, pitch).pitch == 0x3fb3_3333,
        at_most32(0xbfb3_3333, pitch) && at_most32(pitch, 0x3fb3_3333) ==> looking(yaw, pitch).pitch
            == pitch,
{
}

} // verus!
