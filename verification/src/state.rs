//! The state of the free camera, shared by the input loop and the camera detour.

use vstd::prelude::*;

verus! {

/// Point of view and toggles of the free camera. Coordinates and angles are double-precision
/// bit patterns, the field of view is a single-precision one.
#[derive(Clone, Copy, Debug, PartialEq, Eq, Structural)]
pub struct CamData {
    pub x: u64,
    pub y: u64,
    pub z: u64,
    pub pitch: u64,
    pub yaw: u64,
    pub roll: u64,
    pub fov: u32,
    /// Force the field of view outside the free camera too.
    pub fov_locked: bool,
    pub freecam: bool,
    /// Take over the game's point of view on the next frame.
    pub seed: bool,
    pub mouse: bool,
}

impl CamData {
    /// At the origin, with a field of view of 90 degrees and everything off.
    pub fn new() -> (r: CamData)
        ensures
            r == (CamData {
                x: 0,
                y: 0,
                z: 0,
                pitch: 0,
                yaw: 0,
                roll: 0,
                fov: 0x42b4_0000,
                fov_locked: false,
                freecam: false,
                seed: false,
                mouse: false,
            }),
    {
        CamData {
            x: 0,
            y: 0,
            z: 0,
            pitch: 0,
            yaw: 0,
            roll: 0,
            fov: 0x42b4_0000,
            fov_locked: false,
            freecam: false,
            seed: false,
            mouse: false,
        }
    }
}

} // verus!
