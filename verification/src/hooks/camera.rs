//! The detour of the camera manager: every frame, the free camera's point of view takes the
//! place of the game's.

use vstd::prelude::*;

use super::{hook_vtable_slot, vtable_entry};
use crate::memory::{
    Bytes, Memory, Put, agree, apart, elem, elem_addr, law_row_stands, lemma_agree64, lemma_apart,
    lemma_put64_frame, off, put_all, store64, u32_at, u64_at, u8_at,
};
use crate::offsets::{
    BUC_FOV, BUC_LOCATION, BUC_RETURN, BUC_ROTATION, CAMMGR_POV_DESIRED_FOV, CAMMGR_POV_FOV,
    GETFOVANGLE_SLOT, PROCESSEVENT_SLOT,
};
use crate::state::CamData;
use crate::ue::reflect::{
    MAX_HOPS, class_of, class_ptr, find_function, find_live_by_class, function_ptr, live_object,
};

verus! {

/// After how many attempts the wait for the gameplay camera is announced.
pub const ANNOUNCE_AT: u64 = 200;

/// After how many attempts another camera manager will do.
pub const FALLBACK_AT: u64 = 1300;

/// The state of the detour.
#[derive(Clone, Copy)]
pub struct CamHook {
    /// What the vtable held before, for either entry.
    pub original: u64,
    pub original_fov: u64,
    /// The functions of the camera manager's class, 0 where it has none.
    pub bp_update: u64,
    pub get_location: u64,
    pub get_rotation: u64,
    pub get_fov: u64,
    pub hooked: bool,
    pub alive: bool,
    pub saw_update: bool,
    pub faulted: bool,
    pub attempts: u64,
    /// The field of view that is handed out while it is forced.
    pub forced_fov: u32,
    pub fov_active: bool,
    /// The game's own point of view is being read on this thread.
    pub in_cam: bool,
}

impl CamHook {
    /// Not installed.
    pub fn new() -> (r: CamHook)
        ensures
            r == (CamHook {
                original: 0,
                original_fov: 0,
                bp_update: 0,
                get_location: 0,
                get_rotation: 0,
                get_fov: 0,
                hooked: false,
                alive: false,
                saw_update: false,
                faulted: false,
                attempts: 0,
                forced_fov: 0x42b4_0000,
                fov_active: false,
                in_cam: false,
            }),
    {
        CamHook {
            original: 0,
            original_fov: 0,
            bp_update: 0,
            get_location: 0,
            get_rotation: 0,
            get_fov: 0,
            hooked: false,
            alive: false,
            saw_update: false,
            faulted: false,
            attempts: 0,
            forced_fov: 0x42b4_0000,
            fov_active: false,
            in_cam: false,
        }
    }
}

/// Whether the detour is installed, or was given up.
pub fn installed(s: &CamHook) -> (r: bool)
    ensures
        r == s.hooked,
{
    s.hooked
}

/// What came of an attempt to install.
#[derive(Clone, Copy, PartialEq, Eq, Structural)]
pub enum Install {
    /// It was installed before.
    Already,
    /// There is no camera manager yet. The wait is to be announced on one attempt.
    Waiting { announce: bool },
    /// The camera manager has no update function: it is given up.
    NoUpdate { class: u64 },
    /// It is installed, on the gameplay camera or on another one.
    Done { manager: u64, fallback: bool },
    /// A fault ended the attempt.
    Faulted,
}

/// The camera manager to use on attempt `n`: the gameplay camera, or another one after a long
/// wait. 0 if there is none.
pub open spec fn manager_for(m: Bytes, base: u64, n: u64) -> Option<(u64, bool)> {
    match live_object(m, base, "BlamCameraManager"@) {
        None => None,
        Some(c) => if c != 0 {
            Some((c, false))
        } else if n < FALLBACK_AT {
            Some((0, false))
        } else {
            match live_object(m, base, "CameraManager"@) {
                None => None,
                Some(c) => Some((c, true)),
            }
        },
    }
}

/// The functions of a camera manager's class: update, location, rotation, field of view.
pub open spec fn camera_functions(m: Bytes, base: u64, cls: u64) -> Option<(u64, u64, u64, u64)> {
    match (
        function_ptr(m, base, cls, "BlueprintUpdateCamera"@, MAX_HOPS as nat),
        function_ptr(m, base, cls, "GetCameraLocation"@, MAX_HOPS as nat),
        function_ptr(m, base, cls, "GetCameraRotation"@, MAX_HOPS as nat),
        function_ptr(m, base, cls, "GetFOVAngle"@, MAX_HOPS as nat),
    ) {
        (Some(u), Some(l), Some(r), Some(f)) => Some((u, l, r, f)),
        _ => None,
    }
}

/// Both vtable entries of the manager can be read.
pub open spec fn can_detour(m: Bytes, manager: u64) -> bool {
    vtable_entry(m, manager, PROCESSEVENT_SLOT) is Some && vtable_entry(
        m,
        manager,
        GETFOVANGLE_SLOT,
    ) is Some
}

/// Memory and state after both vtable entries of the manager are detoured, one after the other,
/// if none of them faults.
pub open spec fn detoured(
    s: CamHook,
    m: Bytes,
    manager: u64,
    f: (u64, u64, u64, u64),
    detour: u64,
    fov_detour: u64,
) -> Option<(Bytes, CamHook)> {
    match vtable_entry(m, manager, PROCESSEVENT_SLOT) {
        None => None,
        Some((at, entry)) => {
            let m1 = store64(m, at, detour);
            match vtable_entry(m1, manager, GETFOVANGLE_SLOT) {
                None => None,
                Some((at2, entry2)) => Some(
                    (
                        store64(m1, at2, fov_detour),
                        CamHook {
                            original: entry,
                            original_fov: entry2,
                            bp_update: f.0,
                            get_location: f.1,
                            get_rotation: f.2,
                            get_fov: f.3,
                            hooked: true,
                            ..s
                        },
                    ),
                ),
            }
        },
    }
}

/// What an attempt to install comes to, and memory and state after it. The state has counted the
/// attempt, which is number `n`.
pub open spec fn install_outcome(
    s: CamHook,
    m: Bytes,
    base: u64,
    n: u64,
    detour: u64,
    fov_detour: u64,
) -> (Install, Bytes, CamHook) {
    match manager_for(m, base, n) {
        None => (Install::Faulted, m, s),
        Some((manager, fallback)) => if manager == 0 {
            (Install::Waiting { announce: n == ANNOUNCE_AT }, m, s)
        } else {
            match class_ptr(m, manager) {
                None => (Install::Faulted, m, s),
                Some(cls) => match function_ptr(
                    m,
                    base,
                    cls,
                    "BlueprintUpdateCamera"@,
                    MAX_HOPS as nat,
                ) {
                    None => (Install::Faulted, m, s),
                    Some(0) => (
                        Install::NoUpdate { class: cls },
                        m,
                        CamHook { hooked: true, ..s },
                    ),
                    Some(u) => match camera_functions(m, base, cls) {
                        None => (Install::Faulted, m, s),
                        Some(f) => if !can_detour(m, manager) {
                            (Install::Faulted, m, s)
                        } else {
                            match detoured(s, m, manager, f, detour, fov_detour) {
                                None => (
                                    Install::Faulted,
                                    store64(
                                        m,
                                        (vtable_entry(m, manager, PROCESSEVENT_SLOT)->0).0,
                                        detour,
                                    ),
                                    s,
                                ),
                                Some((m2, s2)) => (Install::Done { manager, fallback }, m2, s2),
                            }
                        },
                    },
                },
            }
        },
    }
}

fn find_manager(m: &mut Memory, base: u64, n: u64) -> (r: Option<(u64, bool)>)
    ensures
        r == manager_for(old(m)@, base, n),
        final(m)@ == old(m)@,
{
    let c = find_live_by_class(m, base, "BlamCameraManager")?;
    if c != 0 {
        return Some((c, false));
    }
    if n < FALLBACK_AT {
        return Some((0, false));
    }
    let c = find_live_by_class(m, base, "CameraManager")?;
    Some((c, true))
}

fn has_entry(m: &mut Memory, obj: u64, slot: u64) -> (r: bool)
    ensures
        r == (vtable_entry(old(m)@, obj, slot) is Some),
        final(m)@ == old(m)@,
{
    match m.read_u64(obj) {
        None => false,
        Some(vt) => m.read_u64(elem_addr(vt, slot, 8)).is_some(),
    }
}

/// Find the camera manager and detour it. The gameplay camera is waited for; another camera
/// manager, which goes idle, is used only after a long wait. Neither entry is touched unless both
/// can be read.
pub fn install(s: &mut CamHook, m: &mut Memory, base: u64, detour: u64, fov_detour: u64) -> (r:
    Install)
    ensures
        ({
            let counted = CamHook { attempts: off(old(s).attempts, 1), ..*old(s) };
            let o = install_outcome(
                counted,
                old(m)@,
                base,
                old(s).attempts,
                detour,
                fov_detour,
            );
            if old(s).hooked {
                r == Install::Already && final(m)@ == old(m)@ && *final(s) == *old(s)
            } else {
                r == o.0 && final(m)@ == o.1 && *final(s) == o.2
            }
        }),
{
    if s.hooked {
        return Install::Already;
    }
    let n = s.attempts;
    s.attempts = n.wrapping_add(1);
    let (manager, fallback) = match find_manager(m, base, n) {
        None => return Install::Faulted,
        Some(x) => x,
    };
    if manager == 0 {
        return Install::Waiting { announce: n == ANNOUNCE_AT };
    }
    let cls = match class_of(m, manager) {
        None => return Install::Faulted,
        Some(c) => c,
    };
    let update = match find_function(m, base, cls, "BlueprintUpdateCamera") {
        None => return Install::Faulted,
        Some(f) => f,
    };
    if update == 0 {
        s.hooked = true;
        return Install::NoUpdate { class: cls };
    }
    let location = find_function(m, base, cls, "GetCameraLocation");
    let rotation = find_function(m, base, cls, "GetCameraRotation");
    let fov = find_function(m, base, cls, "GetFOVAngle");
    let (location, rotation, fov) = match (location, rotation, fov) {
        (Some(l), Some(r), Some(f)) => (l, r, f),
        _ => return Install::Faulted,
    };
    if !has_entry(m, manager, PROCESSEVENT_SLOT) || !has_entry(m, manager, GETFOVANGLE_SLOT) {
        return Install::Faulted;
    }
    let original = match hook_vtable_slot(m, manager, PROCESSEVENT_SLOT, detour) {
        None => return Install::Faulted,
        Some(e) => e,
    };
    let original_fov = match hook_vtable_slot(m, manager, GETFOVANGLE_SLOT, fov_detour) {
        None => return Install::Faulted,
        Some(e) => e,
    };
    s.original = original;
    s.original_fov = original_fov;
    s.bp_update = update;
    s.get_location = location;
    s.get_rotation = rotation;
    s.get_fov = fov;
    s.hooked = true;
    Install::Done { manager, fallback }
}

/// The field of view to hand out in place of the game's: none while it is not forced, or while
/// the game's own point of view is being read.
pub open spec fn fov_out(s: CamHook) -> Option<u32> {
    if !s.in_cam && s.fov_active {
        Some(s.forced_fov)
    } else {
        None
    }
}

/// The field of view to hand out in place of the game's: none while it is not forced, or while
/// the game's own point of view is being read.
pub fn get_fov_detour(s: &CamHook) -> (r: Option<u32>)
    ensures
        r == fov_out(*s),
{
    if !s.in_cam && s.fov_active {
        Some(s.forced_fov)
    } else {
        None
    }
}

/// The detour has run. True the first time.
pub fn note_alive(s: &mut CamHook) -> (r: bool)
    ensures
        r == !old(s).alive,
        *final(s) == (CamHook { alive: true, ..*old(s) }),
{
    let first = !s.alive;
    s.alive = true;
    first
}

/// The override has faulted. True the first time.
pub fn note_fault(s: &mut CamHook) -> (r: bool)
    ensures
        r == !old(s).faulted,
        *final(s) == (CamHook { faulted: true, ..*old(s) }),
{
    let first = !s.faulted;
    s.faulted = true;
    first
}

/// The call is the camera update, and not one of our own.
pub open spec fn is_update(s: CamHook, func: u64, parms: u64) -> bool {
    !s.in_cam && func == s.bp_update && parms != 0
}

/// Whether a call through the detour is the camera update: `None` if it is not, else whether it
/// is the first one. The host then holds the time scale and the pawn's state, before
/// [`cam_override`].
pub fn see_update(s: &mut CamHook, func: u64, parms: u64) -> (r: Option<bool>)
    ensures
        r == if is_update(*old(s), func, parms) {
            Some(!old(s).saw_update)
        } else {
            None
        },
        *final(s) == (CamHook {
            saw_update: old(s).saw_update || is_update(*old(s), func, parms),
            ..*old(s)
        }),
{
    if s.in_cam {
        return None;
    }
    if func != s.bp_update || parms == 0 {
        return None;
    }
    let first = !s.saw_update;
    s.saw_update = true;
    Some(first)
}

/// The field of view is forced: in the free camera, and wherever it is locked.
pub open spec fn fov_forced(c: CamData) -> bool {
    c.freecam || c.fov_locked
}

/// The stores that force the field of view of the camera manager.
pub open spec fn fov_row(manager: u64, fov: u32) -> Seq<Put> {
    seq![
        Put::Word(off(manager, CAMMGR_POV_FOV), fov),
        Put::Word(off(manager, CAMMGR_POV_DESIRED_FOV), fov),
    ]
}

/// The stores that put the free camera's point of view into the update's parameter block, and
/// make the engine use it.
pub open spec fn pov_row(parms: u64, c: CamData) -> Seq<Put> {
    seq![
        Put::Long(off(parms, BUC_LOCATION), c.x),
        Put::Long(off(off(parms, BUC_LOCATION), 8), c.y),
        Put::Long(off(off(parms, BUC_LOCATION), 16), c.z),
        Put::Long(off(parms, BUC_ROTATION), c.pitch),
        Put::Long(off(off(parms, BUC_ROTATION), 8), c.yaw),
        Put::Long(off(off(parms, BUC_ROTATION), 16), c.roll),
        Put::Word(off(parms, BUC_FOV), c.fov),
        Put::Byte(off(parms, BUC_RETURN), 1),
    ]
}

/// What is left of an override.
#[derive(Clone, Copy, PartialEq, Eq, Structural)]
pub enum Override {
    /// A fault ended it.
    Faulted,
    /// The game keeps its point of view.
    GameView,
    /// The free camera has to take over the game's point of view first: the host reads it and
    /// calls [`adopt_pov`].
    Seed,
    /// The free camera's point of view is in place.
    FreeView,
}

/// What an override comes to, and memory after it.
pub open spec fn overridden(c: CamData, m: Bytes, manager: u64, parms: u64) -> (Override, Bytes) {
    let p = if fov_forced(c) {
        put_all(m, fov_row(manager, c.fov))
    } else {
        (m, true)
    };
    if !p.1 {
        (Override::Faulted, p.0)
    } else if !c.freecam {
        (Override::GameView, p.0)
    } else if c.seed {
        (Override::Seed, p.0)
    } else {
        let q = put_all(p.0, pov_row(parms, c));
        (
            if q.1 {
                Override::FreeView
            } else {
                Override::Faulted
            },
            q.0,
        )
    }
}

/// Put the free camera's point of view into the update's parameter block. True if all of it
/// landed.
pub fn write_pov(m: &mut Memory, c: &CamData, parms: u64) -> (r: bool)
    ensures
        (final(m)@, r) == put_all(old(m)@, pov_row(parms, *c)),
{
    let mut row: Vec<Put> = Vec::new();
    row.push(Put::Long(parms.wrapping_add(BUC_LOCATION), c.x));
    row.push(Put::Long(parms.wrapping_add(BUC_LOCATION).wrapping_add(8), c.y));
    row.push(Put::Long(parms.wrapping_add(BUC_LOCATION).wrapping_add(16), c.z));
    row.push(Put::Long(parms.wrapping_add(BUC_ROTATION), c.pitch));
    row.push(Put::Long(parms.wrapping_add(BUC_ROTATION).wrapping_add(8), c.yaw));
    row.push(Put::Long(parms.wrapping_add(BUC_ROTATION).wrapping_add(16), c.roll));
    row.push(Put::Word(parms.wrapping_add(BUC_FOV), c.fov));
    row.push(Put::Byte(parms.wrapping_add(BUC_RETURN), 1));
    assert(row@ =~= pov_row(parms, *c));
    m.write_all(&row)
}

/// The detour's state after an override: the field of view is published.
pub open spec fn publishing(s: CamHook, c: CamData) -> CamHook {
    CamHook { fov_active: fov_forced(c), forced_fov: c.fov, ..s }
}

/// Override the point of view on a camera update. The field of view is published and, where it
/// is forced, written into the camera manager; in the free camera, its point of view goes into
/// the parameter block.
pub fn cam_override(s: &mut CamHook, m: &mut Memory, c: &CamData, manager: u64, parms: u64) -> (r:
    Override)
    ensures
        (r, final(m)@) == overridden(*c, old(m)@, manager, parms),
        *final(s) == publishing(*old(s), *c),
{
    let active = c.freecam || c.fov_locked;
    s.fov_active = active;
    s.forced_fov = c.fov;
    if active {
        let mut row: Vec<Put> = Vec::new();
        row.push(Put::Word(manager.wrapping_add(CAMMGR_POV_FOV), c.fov));
        row.push(Put::Word(manager.wrapping_add(CAMMGR_POV_DESIRED_FOV), c.fov));
        assert(row@ =~= fov_row(manager, c.fov));
        if !m.write_all(&row) {
            return Override::Faulted;
        }
    }
    if !c.freecam {
        return Override::GameView;
    }
    if c.seed {
        return Override::Seed;
    }
    if write_pov(m, c, parms) {
        Override::FreeView
    } else {
        Override::Faulted
    }
}

/// The game's own point of view is about to be read, or has been. In between, the detours stay
/// out of the way.
pub fn reading_pov(s: &mut CamHook, on: bool)
    ensures
        *final(s) == (CamHook { in_cam: on, ..*old(s) }),
{
    s.in_cam = on;
}

/// The free camera with the game's point of view taken over.
pub open spec fn adopted(c: CamData, loc: [u64; 3], rot: [u64; 3], fov: u32) -> CamData {
    CamData {
        x: loc[0],
        y: loc[1],
        z: loc[2],
        pitch: rot[0],
        yaw: rot[1],
        roll: rot[2],
        fov,
        seed: false,
        ..c
    }
}

/// The free camera takes over the game's point of view.
pub fn adopt_pov(c: &mut CamData, loc: [u64; 3], rot: [u64; 3], fov: u32)
    ensures
        *final(c) == adopted(*old(c), loc, rot, fov),
{
    c.x = loc[0];
    c.y = loc[1];
    c.z = loc[2];
    c.pitch = rot[0];
    c.yaw = rot[1];
    c.roll = rot[2];
    c.fov = fov;
    c.seed = false;
}

/// Outside the free camera with nothing locked, the camera is left alone: nothing is written,
/// and no field of view is forced.
pub proof fn law_hands_off(c: CamData, m: Bytes, manager: u64, parms: u64)
    requires
        !c.freecam,
        !c.fov_locked,
    ensures
        overridden(c, m, manager, parms) == (Override::GameView, m),
        !fov_forced(c),
{
}

/// Where the free camera's view is in place, the update's parameter block holds it: the location
/// by x, y and z, the rotation by pitch, yaw and roll, the field of view, and the flag that makes
/// the engine use them.
pub proof fn law_free_view_stands(c: CamData, m: Bytes, manager: u64, parms: u64)
    requires
        overridden(c, m, manager, parms).0 is FreeView,
    ensures
        ({
            let n = overridden(c, m, manager, parms).1;
            &&& u64_at(n, off(parms, 0x08)) == Some(c.x)
            &&& u64_at(n, off(parms, 0x10)) == Some(c.y)
            &&& u64_at(n, off(parms, 0x18)) == Some(c.z)
            &&& u64_at(n, off(parms, 0x20)) == Some(c.pitch)
            &&& u64_at(n, off(parms, 0x28)) == Some(c.yaw)
            &&& u64_at(n, off(parms, 0x30)) == Some(c.roll)
            &&& u32_at(n, off(parms, 0x38)) == Some(c.fov)
            &&& u8_at(n, off(parms, 0x3c)) == Some(1u8)
            &&& c.freecam
            &&& !c.seed
        }),
{
    let p = put_all(m, fov_row(manager, c.fov)).0;
    let row = pov_row(parms, c);
    law_row_stands(p, row, 0);
    law_row_stands(p, row, 1);
    law_row_stands(p, row, 2);
    law_row_stands(p, row, 3);
    law_row_stands(p, row, 4);
    law_row_stands(p, row, 5);
    law_row_stands(p, row, 6);
    law_row_stands(p, row, 7);
}

/// In the free camera, and wherever the field of view is locked, the camera manager holds the
/// camera's field of view twice, as it is and as it is wanted, unless a fault came. Outside the
/// free camera nothing else is written, and while the game's view is still to be taken over, too.
pub proof fn law_forced_fov_stands(c: CamData, m: Bytes, manager: u64, parms: u64)
    requires
        c.freecam || c.fov_locked,
        overridden(c, m, manager, parms).0 is GameView || overridden(c, m, manager, parms).0 is Seed,
    ensures
        ({
            let (r, n) = overridden(c, m, manager, parms);
            &&& u32_at(n, off(manager, 0x3b0)) == Some(c.fov)
            &&& u32_at(n, off(manager, 0x3b4)) == Some(c.fov)
            &&& r is GameView <==> !c.freecam
            &&& r is Seed ==> c.seed
        }),
{
    law_row_stands(m, fov_row(manager, c.fov), 0);
    law_row_stands(m, fov_row(manager, c.fov), 1);
}

/// The field of view is handed out as the camera has it, in the free camera and wherever it is
/// locked, but for the time in which the game's own view is read.
pub proof fn law_fov_handed_out(s: CamHook, c: CamData)
    ensures
        fov_out(publishing(s, c)) == if (c.freecam || c.fov_locked) && !s.in_cam {
            Some(c.fov)
        } else {
            None
        },
{
}

/// A point of view that was taken over is the one that is put in place from then on: what the
/// game had as location, rotation and field of view goes back to the same places, and it is taken
/// over once.
pub proof fn law_adopted_view_is_shown(
    c: CamData,
    loc: [u64; 3],
    rot: [u64; 3],
    fov: u32,
    parms: u64,
    i: int,
)
    requires
        0 <= i < 3,
    ensures
        ({
            let n = adopted(c, loc, rot, fov);
            &&& pov_row(parms, n)[i] == Put::Long(off(off(parms, 0x08), (8 * i) as u64), loc[i])
            &&& pov_row(parms, n)[3 + i] == Put::Long(off(off(parms, 0x20), (8 * i) as u64), rot[i])
            &&& n.x == loc[0] && n.y == loc[1] && n.z == loc[2]
            &&& n.pitch == rot[0] && n.yaw == rot[1] && n.roll == rot[2]
            &&& n.fov == fov
            &&& !n.seed
            &&& n.freecam == c.freecam && n.fov_locked == c.fov_locked && n.mouse == c.mouse
        }),
{
}

/// For the first 1300 attempts only the gameplay camera will do, afterwards any camera manager;
/// the gameplay camera is always preferred.
pub proof fn law_gameplay_camera_first(m: Bytes, base: u64, n: u64)
    ensures
        manager_for(m, base, n) matches Some((c, fallback)) ==> {
            &&& !fallback ==> live_object(m, base, "BlamCameraManager"@) == Some(c)
            &&& fallback ==> n >= 1300 && live_object(m, base, "BlamCameraManager"@) == Some(0u64)
                && live_object(m, base, "CameraManager"@) == Some(c)
        },
        n < 1300 && live_object(m, base, "BlamCameraManager"@) == Some(0u64) ==> manager_for(
            m,
            base,
            n,
        ) == Some((0u64, false)),
        n >= 1300 && live_object(m, base, "BlamCameraManager"@) == Some(0u64) ==> (live_object(
            m,
            base,
            "CameraManager"@,
        ) matches Some(c) ==> manager_for(m, base, n) == Some((c, true))),
{
}

/// A call through the detour is an update where it is the update function with parameters, and
/// the detour did not make it itself.
pub proof fn law_updates(s: CamHook, func: u64, parms: u64)
    ensures
        s.in_cam ==> !is_update(s, func, parms),
        parms == 0 ==> !is_update(s, func, parms),
        !s.in_cam && parms != 0 ==> is_update(s, s.bp_update, parms),
        func != s.bp_update ==> !is_update(s, func, parms),
{
}

/// A detoured manager has both its entries replaced, the one of events and the one of the field of
/// view, and what they held is kept. The functions of its class are kept as they were found.
pub proof fn law_detour_keeps_originals(
    s: CamHook,
    m: Bytes,
    manager: u64,
    f: (u64, u64, u64, u64),
    detour: u64,
    fov_detour: u64,
)
    requires
        detoured(s, m, manager, f, detour, fov_detour) is Some,
        u64_at(m, manager) is Some,
        apart(elem(u64_at(m, manager)->0, 79, 8), 8, manager, 8),
    ensures
        ({
            let (n, t) = detoured(s, m, manager, f, detour, fov_detour)->0;
            let vt = u64_at(m, manager)->0;
            &&& u64_at(m, elem(vt, 79, 8)) == Some(t.original)
            &&& u64_at(m, elem(vt, 252, 8)) == Some(t.original_fov)
            &&& u64_at(n, elem(vt, 79, 8)) == Some(detour)
            &&& u64_at(n, elem(vt, 252, 8)) == Some(fov_detour)
            &&& t.hooked
            &&& (t.bp_update, t.get_location, t.get_rotation, t.get_fov) == f
        }),
{
    let vt = u64_at(m, manager)->0;
    let a = elem(vt, 79, 8);
    let b = elem(vt, 252, 8);
    let m1 = store64(m, a, detour);
    assert(apart(a, 8, b, 8));
    lemma_put64_frame(m, a, detour);
    lemma_apart(manager, 8, a, 8);
    assert(agree(m1, m, manager, 8));
    lemma_agree64(m1, m, manager);
    lemma_apart(b, 8, a, 8);
    assert(agree(m1, m, b, 8));
    lemma_agree64(m1, m, b);
    lemma_put64_frame(m1, b, fov_detour);
    lemma_apart(a, 8, b, 8);
    let n = store64(m1, b, fov_detour);
    assert(agree(n, m1, a, 8));
    lemma_agree64(n, m1, a);
}

/// Without a camera manager an attempt comes to a wait, with nothing written, and the wait is
/// announced on attempt 200 alone. A manager without an update function is given up for good.
pub proof fn law_waiting(s: CamHook, m: Bytes, base: u64, n: u64, detour: u64, fov_detour: u64)
    ensures
        ({
            let (r, p, t) = install_outcome(s, m, base, n, detour, fov_detour);
            &&& manager_for(m, base, n) is None ==> r is Faulted && p == m && t == s
            &&& (manager_for(m, base, n) matches Some((c, f)) && c == 0) ==> r == (Install::Waiting {
                announce: n == 200,
            }) && p == m && t == s
            &&& r is NoUpdate ==> p == m && t.hooked
            &&& r matches Install::Done { manager, fallback } ==> manager_for(m, base, n) == Some(
                (manager, fallback),
            ) && t.hooked
        }),
{
}

} // verus!
