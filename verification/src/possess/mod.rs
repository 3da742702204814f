//! Playing as an AI unit: the camera locks onto a biped, and the player's controls are bound to
//! its unit.
//!
//! Binding redirects the simulation's own two references from the player to a unit (the unit
//! that moves, and the unit that aims and fires), detaches the unit's AI, marks the player as
//! the unit's owner, and lets the player be seen as one of the unit's team. Everything that is
//! changed is kept, and put back on release.

use vstd::prelude::*;

pub mod laws;
pub mod target;
pub mod ticks;

use crate::cmd;
use crate::cmd::{Cmd, Queue};
use crate::hooks::sim_seed;
use crate::hooks::sim_seed::{Install, SeedHook, install_outcome, unpatched};
use crate::memory::{Bytes, Memory, off, pattern8, signed16, signed8, store8, to_i8, u8_at};
use crate::offsets::PAWN_PERSPECTIVE;
use crate::simtime::ai::{set_ai_state, state_of, state_set};
use crate::simtime::code::{clamp_set, restore_turn_clamp, set_turn_clamp};
use crate::simtime::objects::{
    NO_HANDLE, handle_live, live, local_player, player_handle, player_unit_handle, unit_slot,
};
use crate::simtime::player::{
    assert_control_unit_handle, control_slot, local_player_index, restore_player_team_byte,
    set_control_unit_handle, set_player_team_byte, set_player_unit_handle, slot_set, slot_value,
    team_byte, team_slot,
};
use crate::simtime::unit::{
    NO_OWNER, ai_ref, ai_ref_set, anchor_biped_to, anchor_sources, owner_set, set_unit_ai_datum,
    set_unit_owner, team_of, unit_team,
};
use crate::simtime::weapon::{WeaponLine, diag_weapon, weapon_report};
use crate::state::CamData;
use crate::text;

verus! {

/// Bit pattern of the turn rate, 20 radians per second, while a unit is controlled.
pub const CONTROL_TURN_RATE: u32 = 0x41a0_0000;

/// Bit pattern of `-1.0`: the anchor could not be moved.
pub const ANCHOR_LOST: u32 = 0xbf80_0000;

/// How many ticks there are to one diagnostic report.
pub const DIAG_EVERY: u32 = 60;

/// The state of possession.
#[derive(Clone, Copy)]
pub struct Possess {
    /// A release waits for the game thread.
    pub releasing: bool,
    /// The overlay has the cursor.
    pub cursor: bool,
    /// The view is third-person.
    pub third: bool,
    /// The camera is locked onto a target.
    pub follow: bool,
    /// The target's actor, and its slot in the object table.
    pub target: u64,
    pub target_idx: i32,
    /// The player's controls are bound to the target's unit.
    pub control: bool,
    /// The unit that is controlled.
    pub cur_handle: u32,
    /// What was there before the controls were bound.
    pub braindead_saved: i32,
    pub saved_player_handle: u32,
    pub saved_control_handle: u32,
    pub saved_ai_datum: u32,
    pub saved_player_team: Option<i8>,
    /// The player's pawn while controlling.
    pub pawn_ptr: u64,
    /// The controlled unit's own team word.
    pub possessed_team: u32,
    /// How far the streaming anchor moved on the last tick.
    pub anchor_moved: u32,
    pub diag_ctr: u32,
}

impl Possess {
    /// Nothing possessed, third-person view.
    pub fn new() -> (r: Possess)
        ensures
            !r.releasing,
            !r.cursor,
            r.third,
            !r.follow,
            r.target == 0,
            r.target_idx == -1,
            !r.control,
            r.cur_handle == NO_HANDLE,
            r.braindead_saved == 1,
            r.saved_player_handle == NO_HANDLE,
            r.saved_control_handle == NO_HANDLE,
            r.saved_ai_datum == NO_HANDLE,
            r.saved_player_team is None,
            r.pawn_ptr == 0,
            r.possessed_team == 0,
            r.anchor_moved == 0,
            r.diag_ctr == 0,
    {
        Possess {
            releasing: false,
            cursor: false,
            third: true,
            follow: false,
            target: 0,
            target_idx: -1,
            control: false,
            cur_handle: NO_HANDLE,
            braindead_saved: 1,
            saved_player_handle: NO_HANDLE,
            saved_control_handle: NO_HANDLE,
            saved_ai_datum: NO_HANDLE,
            saved_player_team: None,
            pawn_ptr: 0,
            possessed_team: 0,
            anchor_moved: 0,
            diag_ctr: 0,
        }
    }
}

/// Whether the overlay has the cursor.
pub fn cursor_active(s: &Possess) -> (r: bool)
    ensures
        r == s.cursor,
{
    s.cursor
}

/// The overlay's input was toggled.
pub fn note_cursor_toggle(s: &mut Possess)
    ensures
        *final(s) == (Possess { cursor: !old(s).cursor, ..*old(s) }),
{
    s.cursor = !s.cursor;
}

/// Whether the camera is locked onto a target.
pub fn follow_active(s: &Possess) -> (r: bool)
    ensures
        r == s.follow,
{
    s.follow
}

/// Whether a unit is controlled, as opposed to only watched.
pub fn control_active(s: &Possess) -> (r: bool)
    ensures
        r == s.control,
{
    s.control
}

/// Whether a unit is controlled.
pub fn controlling(s: &Possess) -> (r: bool)
    ensures
        r == s.control,
{
    s.control
}

/// The script name of a team.
pub open spec fn team_name(team: u8) -> Seq<char> {
    match team {
        0 => "default"@,
        1 => "player"@,
        2 => "human"@,
        3 => "covenant"@,
        4 => "flood"@,
        5 => "sentinel"@,
        6 => "unused6"@,
        7 => "unused7"@,
        8 => "unused8"@,
        _ => "unused9"@,
    }
}

/// The team of the controlled unit: the one it had when it was taken, or, if that was not
/// recorded, the one it has.
pub open spec fn possessed_team(s: Possess, m: Bytes, tls: u64) -> Option<u8> {
    if !s.control {
        None
    } else if s.possessed_team != 0 {
        Some((s.possessed_team % 0x100) as u8)
    } else if s.cur_handle == NO_HANDLE {
        None
    } else {
        match team_of(m, tls, s.cur_handle) {
            None => None,
            Some(w) => Some((w % 0x100) as u8),
        }
    }
}

/// The script name of the controlled unit's team (`None` while no unit is controlled).
pub fn possessed_team_name(s: &Possess, m: &mut Memory, tls: u64) -> (r: Option<&'static str>)
    ensures
        match possessed_team(*s, old(m)@, tls) {
            None => r is None,
            Some(t) => r is Some && (r->0)@ == team_name(t),
        },
        final(m)@ == old(m)@,
{
    if !s.control {
        return None;
    }
    let team: u8 = if s.possessed_team != 0 {
        (s.possessed_team % 0x100) as u8
    } else {
        if s.cur_handle == NO_HANDLE {
            return None;
        }
        let w = unit_team(m, tls, s.cur_handle)?;
        (w % 0x100) as u8
    };
    Some(
        match team {
            0 => "default",
            1 => "player",
            2 => "human",
            3 => "covenant",
            4 => "flood",
            5 => "sentinel",
            6 => "unused6",
            7 => "unused7",
            8 => "unused8",
            _ => "unused9",
        },
    )
}

/// The view that a name asks for: any name but those of a view switches over.
pub open spec fn view_for(third: bool, which: Seq<char>) -> bool {
    if which == "first"@ || which == "fp"@ || which == "1"@ {
        false
    } else if which == "third"@ || which == "tp"@ || which == "3"@ {
        true
    } else {
        !third
    }
}

/// Set the view: first-person, third-person, or the other one.
pub fn set_view(s: &mut Possess, which: &str)
    ensures
        *final(s) == (Possess { third: view_for(old(s).third, which@), ..*old(s) }),
{
    if text::same(which, "first") || text::same(which, "fp") || text::same(which, "1") {
        s.third = false;
    } else if text::same(which, "third") || text::same(which, "tp") || text::same(which, "3") {
        s.third = true;
    } else {
        s.third = !s.third;
    }
}

/// Watch the target that was picked, without controlling it. The free camera is left.
pub fn select_and_possess(s: &mut Possess, cam: &mut CamData, best: u64) -> (r: bool)
    ensures
        r == (best != 0),
        *final(s) == if best != 0 {
            watching(*old(s))
        } else {
            *old(s)
        },
        *final(cam) == left_free(*old(cam), best),
{
    if best == 0 {
        return false;
    }
    cam.freecam = false;
    s.third = true;
    s.follow = true;
    true
}

/// The state in which a target is watched.
pub open spec fn watching(s: Possess) -> Possess {
    Possess { third: true, follow: true, ..s }
}

/// The memory that a player's team byte change leaves.
pub open spec fn team_byte_set(m: Bytes, tls: u64, team: i8) -> Bytes {
    if team_slot(m, tls) == 0 {
        m
    } else {
        store8(m, team_slot(m, tls), pattern8(team))
    }
}

/// Memory after the two player bindings are put back.
pub open spec fn bindings_back(s: Possess, m: Bytes, tls: u64) -> Bytes {
    let m1 = if s.saved_player_handle != NO_HANDLE {
        slot_set(m, unit_slot(m, tls), s.saved_player_handle)
    } else {
        m
    };
    if s.saved_control_handle != NO_HANDLE {
        slot_set(m1, control_slot(m1, tls), s.saved_control_handle)
    } else {
        m1
    }
}

/// Memory after the controlled unit is given back to its AI. The reference to the AI goes first:
/// the state is found through it. A unit that is gone is left alone: its place in the table may
/// be another object's by now.
pub open spec fn unit_back(s: Possess, m: Bytes, tls: u64) -> Bytes {
    if !live(m, tls, s.cur_handle) {
        m
    } else {
        let m1 = owner_set(m, tls, s.cur_handle, NO_OWNER);
        let m2 = ai_ref_set(m1, tls, s.cur_handle, s.saved_ai_datum);
        state_set(m2, tls, s.cur_handle, s.braindead_saved)
    }
}

/// Memory after the player's team is put back.
pub open spec fn team_back(s: Possess, m: Bytes, tls: u64) -> Bytes {
    match s.saved_player_team {
        None => m,
        Some(t) => team_byte_set(m, tls, t),
    }
}

/// Memory after a release.
pub open spec fn released(
    s: Possess,
    m: Bytes,
    tls: u64,
    sim_base: u64,
    clamp: u32,
    hook: SeedHook,
) -> Bytes {
    let m1 = team_back(s, unit_back(s, bindings_back(s, m, tls), tls), tls);
    let m2 = if clamp == 0 || sim_base == 0 {
        m1
    } else {
        clamp_set(m1, sim_base, clamp)
    };
    if hook.installed && hook.target != 0 && hook.trampoline != 0 {
        unpatched(m2, hook.target, hook.trampoline)
    } else {
        m2
    }
}

/// The state after a release: nothing is kept any more.
pub open spec fn released_state(s: Possess) -> Possess {
    Possess {
        releasing: false,
        cur_handle: NO_HANDLE,
        saved_player_handle: NO_HANDLE,
        saved_control_handle: NO_HANDLE,
        saved_ai_datum: if s.cur_handle == NO_HANDLE {
            s.saved_ai_datum
        } else {
            NO_HANDLE
        },
        saved_player_team: None,
        pawn_ptr: 0,
        ..s
    }
}

/// On the game thread: carry out a release that waits. Both bindings go back to the player's own
/// unit, the unit goes back to its AI if it is still there, the player's team and the turn rate are put back, and the
/// seed detour is removed. The player's own handle comes back; the host is then to return to
/// first person, show the pawn and enable its input.
pub fn service(
    s: &mut Possess,
    m: &mut Memory,
    tls: u64,
    sim_base: u64,
    clamp: &mut u32,
    hook: &mut SeedHook,
) -> (r: Option<u32>)
    ensures
        r == if old(s).releasing {
            Some(old(s).saved_player_handle)
        } else {
            None
        },
        old(s).releasing ==> {
            &&& final(m)@ == released(*old(s), old(m)@, tls, sim_base, *old(clamp), *old(hook))
            &&& *final(s) == released_state(*old(s))
            &&& *final(clamp) == 0
            &&& sim_seed::seed_removed(*old(hook), *final(hook))
        },
        !old(s).releasing ==> {
            &&& final(m)@ == old(m)@
            &&& *final(s) == *old(s)
            &&& *final(clamp) == *old(clamp)
            &&& *final(hook) == *old(hook)
        },
{
    if !s.releasing {
        return None;
    }
    s.releasing = false;
    let h = s.cur_handle;
    let old_p = s.saved_player_handle;
    let old_c = s.saved_control_handle;
    s.cur_handle = NO_HANDLE;
    s.saved_player_handle = NO_HANDLE;
    s.saved_control_handle = NO_HANDLE;
    if old_p != NO_HANDLE {
        set_player_unit_handle(m, tls, old_p);
    }
    if old_c != NO_HANDLE {
        set_control_unit_handle(m, tls, old_c);
    }
    let ai = s.saved_ai_datum;
    if h != NO_HANDLE {
        s.saved_ai_datum = NO_HANDLE;
    }
    if handle_live(m, tls, h) {
        set_unit_owner(m, tls, h, NO_OWNER);
        set_unit_ai_datum(m, tls, h, ai);
        set_ai_state(m, tls, h, s.braindead_saved);
    }
    let team = s.saved_player_team;
    s.saved_player_team = None;
    if let Some(t) = team {
        restore_player_team_byte(m, tls, t);
    }
    restore_turn_clamp(clamp, m, sim_base);
    sim_seed::uninstall(hook, m);
    s.pawn_ptr = 0;
    Some(old_p)
}

/// What a tick leaves for the host.
#[derive(Clone, Copy, PartialEq, Eq, Structural)]
pub enum Tick {
    /// No unit is controlled.
    Idle,
    /// The unit is gone: a release waits.
    Lost,
    /// The unit is held. Keep the body visible and the pawn hidden; where the perspective has
    /// `drifted`, set it again; where `report` is set, a diagnostic report is due.
    Held { pawn: u64, drifted: bool, report: bool },
}

/// The team that the player is seen as while controlling.
pub open spec fn sect(s: Possess) -> i8 {
    signed8((s.possessed_team % 0x100) as u8)
}

/// Memory after the bindings are held on a tick.
pub open spec fn held_bindings(s: Possess, m: Bytes, tls: u64) -> Bytes {
    let h = s.cur_handle;
    let m1 = slot_set(m, unit_slot(m, tls), h);
    let m2 = slot_set(m1, control_slot(m1, tls), h);
    let m3 = match local_player(m2, tls) {
        None => m2,
        Some((pcg, ph)) => owner_set(m2, tls, h, signed16((ph % 0x1_0000) as u16)),
    };
    let m4 = ai_ref_set(m3, tls, h, NO_HANDLE);
    if s.saved_player_team is Some {
        team_byte_set(m4, tls, sect(s))
    } else {
        m4
    }
}

/// Memory after the streaming anchor is moved on a tick, and the distance: none without an
/// anchor.
pub open spec fn held_anchor(
    s: Possess,
    m: Bytes,
    tls: u64,
    target: [u32; 3],
    moved: u32,
) -> (Bytes, u32) {
    let a = s.saved_player_handle;
    if a == NO_HANDLE {
        (m, s.anchor_moved)
    } else if anchor_sources(m, tls, a, s.cur_handle) is None {
        (m, ANCHOR_LOST)
    } else {
        let p = crate::memory::store_triple(
            m,
            off(
                crate::simtime::objects::body_of(m, tls, a),
                crate::simtime::objects::BODY_POS,
            ),
            target,
        );
        (
            p.0,
            if p.1 {
                moved
            } else {
                ANCHOR_LOST
            },
        )
    }
}

/// The perspective of the pawn is not third-person any more.
pub open spec fn perspective_drifted(m: Bytes, pawn: u64) -> bool {
    pawn != 0 && match u8_at(m, off(pawn, PAWN_PERSPECTIVE)) {
        None => false,
        Some(p) => p != 2,
    }
}

/// What a tick comes to, and the state and memory after it.
pub open spec fn ticked(
    s: Possess,
    m: Bytes,
    tls: u64,
    target: [u32; 3],
    moved: u32,
) -> (Tick, Possess, Bytes) {
    if !s.control || s.cur_handle == NO_HANDLE {
        (Tick::Idle, s, m)
    } else if !live(m, tls, s.cur_handle) {
        (Tick::Lost, Possess { control: false, releasing: true, ..s }, m)
    } else {
        let anchored = held_anchor(s, held_bindings(s, m, tls), tls, target, moved);
        (
            Tick::Held {
                pawn: s.pawn_ptr,
                drifted: perspective_drifted(anchored.0, s.pawn_ptr),
                report: s.diag_ctr % DIAG_EVERY == 0,
            },
            Possess {
                anchor_moved: anchored.1,
                diag_ctr: if s.diag_ctr == u32::MAX {
                    0
                } else {
                    (s.diag_ctr + 1) as u32
                },
                ..s
            },
            anchored.0,
        )
    }
}

/// Once per tick while a unit is controlled: write both bindings, the owner, the detached AI and
/// the player's team again, and keep the streaming anchor at `target`, just above the unit. If
/// the unit is gone, nothing is written and a release waits. `near` serves the seed detour.
pub fn control_tick(
    s: &mut Possess,
    m: &mut Memory,
    tls: u64,
    hook: &mut SeedHook,
    near: &Vec<bool>,
    target: [u32; 3],
    moved: u32,
) -> (r: Tick)
    ensures
        ({
            let t = ticked(*old(s), old(m)@, tls, target, moved);
            &&& r == t.0
            &&& *final(s) == t.1
            &&& final(m)@ == t.2
            &&& t.0 is Held ==> sim_seed::seed_updated(
                *old(hook),
                *final(hook),
                t.2,
                tls,
                old(s).cur_handle,
                near@,
            )
            &&& !(t.0 is Held) ==> *final(hook) == *old(hook)
        }),
{
    if !s.control {
        return Tick::Idle;
    }
    let h = s.cur_handle;
    if h == NO_HANDLE {
        return Tick::Idle;
    }
    if !handle_live(m, tls, h) {
        s.control = false;
        s.releasing = true;
        return Tick::Lost;
    }
    set_player_unit_handle(m, tls, h);
    assert_control_unit_handle(m, tls, h);
    if let Some(pi) = local_player_index(m, tls) {
        set_unit_owner(m, tls, h, pi);
    }
    set_unit_ai_datum(m, tls, h, NO_HANDLE);
    if s.saved_player_team.is_some() {
        restore_player_team_byte(m, tls, to_i8((s.possessed_team % 0x100) as u8));
    }
    let anchor_h = s.saved_player_handle;
    if anchor_h != NO_HANDLE {
        let went = anchor_biped_to(m, tls, anchor_h, h, target, moved);
        s.anchor_moved = match went {
            Some(d) => d,
            None => ANCHOR_LOST,
        };
    }
    sim_seed::update_seed(hook, m, tls, h, near);
    let pawn = s.pawn_ptr;
    let drifted = if pawn != 0 {
        match m.read_u8(pawn.wrapping_add(PAWN_PERSPECTIVE)) {
            None => false,
            Some(p) => p != 2,
        }
    } else {
        false
    };
    let n = s.diag_ctr;
    s.diag_ctr = n.wrapping_add(1);
    Tick::Held { pawn, drifted, report: n % DIAG_EVERY == 0 }
}

/// The script line that enables or disables all AI.
pub open spec fn ai_line(on: bool) -> Seq<char> {
    if on {
        "hs:ai_enable 1"@
    } else {
        "hs:ai_enable 0"@
    }
}

/// The script line that enables or disables all AI.
pub fn set_ai(on: bool) -> (r: &'static str)
    ensures
        r@ == ai_line(on),
{
    if on {
        "hs:ai_enable 1"
    } else {
        "hs:ai_enable 0"
    }
}

/// Report on the controlled unit's weapon: the unit, its body, and the lines of the report
/// (`None` while no unit is controlled).
pub fn diagweapon(s: &Possess, m: &mut Memory, tls: u64) -> (r: Option<(u32, u64, Vec<WeaponLine>)>)
    ensures
        r is None <==> s.cur_handle == NO_HANDLE,
        r matches Some(w) ==> {
            &&& w.0 == s.cur_handle
            &&& w.1 == crate::simtime::objects::body_of(old(m)@, tls, s.cur_handle)
            &&& w.2@ == weapon_report(old(m)@, tls, s.cur_handle, w.1)
        },
        final(m)@ == old(m)@,
{
    let h = s.cur_handle;
    if h == NO_HANDLE {
        return None;
    }
    let (body, lines) = diag_weapon(m, tls, h);
    Some((h, body, lines))
}

/// The roots and addresses that taking control works with.
#[derive(Clone, Copy)]
pub struct Links {
    pub tls: u64,
    pub sim_base: u64,
    /// Memory for the seed detour's trampoline, and the detour's address.
    pub fresh: u64,
    pub relay: u64,
    /// The player's pawn.
    pub pawn: u64,
}

/// What was there before the controls were bound, and what came of it.
#[derive(Clone, Copy)]
pub struct Binding {
    /// The AI's state before.
    pub braindead: Option<i32>,
    pub old_ai: Option<u32>,
    /// The unit's team word.
    pub team: Option<u16>,
    /// The player's team before.
    pub old_team: Option<i8>,
    pub old_player: Option<u32>,
    pub old_control: Option<u32>,
    pub install: Install,
}

/// How an attempt to take control comes out.
pub enum Control {
    /// No target.
    NoTarget,
    /// The target's unit is not known: it is only watched.
    Spectate,
    /// The target's unit is the player's own: it is only watched.
    OwnUnit,
    /// The unit is controlled.
    Bound(Binding),
}

/// Memory, turn rate and binding after the controls are bound to the unit `h`.
pub struct Bound {
    pub m: Bytes,
    pub clamp: u32,
    pub b: Binding,
    pub trampoline: u64,
}

/// The turn rate that is kept, and memory, after the turn rate is widened.
pub open spec fn clamp_widened(m: Bytes, sim_base: u64, saved: u32) -> (Bytes, u32) {
    let stock = crate::memory::u32_at(
        m,
        off(sim_base, crate::simtime::code::TURN_CLAMP_POS_RVA),
    );
    if sim_base == 0 || (saved == 0 && stock is None) {
        (m, saved)
    } else {
        (
            clamp_set(m, sim_base, crate::ieee::magnitude32(CONTROL_TURN_RATE)),
            if saved != 0 {
                saved
            } else {
                stock->0
            },
        )
    }
}

/// Memory after the unit's AI is stopped and detached, with what was there before. The AI is
/// stopped first, while it can still be found through the unit.
pub open spec fn ai_detached(m: Bytes, tls: u64, h: u32) -> (Bytes, Option<i32>, Option<u32>) {
    let m1 = state_set(m, tls, h, 0);
    (ai_ref_set(m1, tls, h, NO_HANDLE), state_of(m, tls, h), ai_ref(m1, tls, h))
}

/// Memory after the player joins the unit's team, with the unit's team word and the player's
/// team before.
pub open spec fn team_joined(m: Bytes, tls: u64, h: u32) -> (Bytes, Option<u16>, Option<i8>) {
    match team_of(m, tls, h) {
        None => (m, None, None),
        Some(w) => (
            team_byte_set(m, tls, signed8((w % 0x100) as u8)),
            Some(w),
            team_byte(m, tls),
        ),
    }
}

/// Memory after both bindings are redirected and the owner is stamped, with the handles that
/// were there before.
pub open spec fn redirected(m: Bytes, tls: u64, h: u32) -> (Bytes, Option<u32>, Option<u32>) {
    let m1 = slot_set(m, unit_slot(m, tls), h);
    let m2 = slot_set(m1, control_slot(m1, tls), h);
    let m3 = match local_player(m2, tls) {
        None => m2,
        Some((pcg, ph)) => owner_set(m2, tls, h, signed16((ph % 0x1_0000) as u16)),
    };
    (m3, slot_value(m, unit_slot(m, tls)), slot_value(m1, control_slot(m1, tls)))
}

/// What binding the controls to the unit `h` does.
pub open spec fn bound(m: Bytes, l: Links, clamp: u32, hook: SeedHook, h: u32) -> Bound {
    let ai = ai_detached(m, l.tls, h);
    let team = team_joined(ai.0, l.tls, h);
    let turn = clamp_widened(team.0, l.sim_base, clamp);
    let slots = redirected(turn.0, l.tls, h);
    let inst = install_outcome(hook, slots.0, l.sim_base, l.fresh, l.relay);
    Bound {
        m: inst.1,
        clamp: turn.1,
        b: Binding {
            braindead: ai.1,
            old_ai: ai.2,
            team: team.1,
            old_team: team.2,
            old_player: slots.1,
            old_control: slots.2,
            install: inst.0,
        },
        trampoline: inst.2,
    }
}

/// The seed detour after the controls are bound.
pub open spec fn hook_bound(hook: SeedHook, o: Bound) -> SeedHook {
    SeedHook {
        target: match o.b.install {
            Install::Done { target } => target,
            _ => hook.target,
        },
        installed: hook.installed || o.b.install is Done,
        trampoline: o.trampoline,
        ..hook
    }
}

/// A value, or a fallback for a missing one.
pub open spec fn or_else<T>(v: Option<T>, fallback: T) -> T {
    match v {
        Some(x) => x,
        None => fallback,
    }
}

/// The state in which the unit `h` is controlled.
pub open spec fn controlling_state(s: Possess, h: u32, pawn: u64, b: Binding) -> Possess {
    Possess {
        third: true,
        follow: true,
        control: true,
        cur_handle: h,
        braindead_saved: or_else(b.braindead, 1),
        saved_ai_datum: or_else(b.old_ai, NO_HANDLE),
        possessed_team: match b.team {
            None => s.possessed_team,
            Some(w) => w as u32,
        },
        saved_player_team: match b.old_team {
            None => s.saved_player_team,
            Some(t) => Some(t),
        },
        saved_player_handle: or_else(b.old_player, NO_HANDLE),
        saved_control_handle: or_else(b.old_control, NO_HANDLE),
        pawn_ptr: pawn,
        ..s
    }
}

fn detach_ai(m: &mut Memory, tls: u64, h: u32) -> (r: (Option<i32>, Option<u32>))
    ensures
        (final(m)@, r.0, r.1) == ai_detached(old(m)@, tls, h),
{
    let braindead = set_ai_state(m, tls, h, 0);
    let old_ai = set_unit_ai_datum(m, tls, h, NO_HANDLE);
    (braindead, old_ai)
}

fn join_team(m: &mut Memory, tls: u64, h: u32) -> (r: (Option<u16>, Option<i8>))
    ensures
        (final(m)@, r.0, r.1) == team_joined(old(m)@, tls, h),
{
    match unit_team(m, tls, h) {
        None => (None, None),
        Some(w) => {
            let prev = set_player_team_byte(m, tls, to_i8((w % 0x100) as u8));
            (Some(w), prev)
        },
    }
}

fn redirect(m: &mut Memory, tls: u64, h: u32) -> (r: (Option<u32>, Option<u32>))
    ensures
        (final(m)@, r.0, r.1) == redirected(old(m)@, tls, h),
{
    let old_p = set_player_unit_handle(m, tls, h);
    let old_c = set_control_unit_handle(m, tls, h);
    if let Some(pi) = local_player_index(m, tls) {
        set_unit_owner(m, tls, h, pi);
    }
    (old_p, old_c)
}

/// The queue after a cursor that the overlay has is given up.
pub open spec fn cursor_dropped(s: Possess, q: Seq<Cmd>) -> Seq<Cmd> {
    if s.cursor {
        q.push(Cmd::ImguiInput)
    } else {
        q
    }
}

/// The camera after the attempt: where there is a target, the free camera is left.
pub open spec fn left_free(c: CamData, best: u64) -> CamData {
    if best != 0 {
        CamData { freecam: false, ..c }
    } else {
        c
    }
}

/// How an attempt to take control comes out, and the state, memory, the turn rate that is kept
/// and the seed detour after it.
pub open spec fn taking(
    s: Possess,
    m: Bytes,
    l: Links,
    clamp: u32,
    hook: SeedHook,
    best: u64,
    handle: Option<u32>,
) -> (Control, Possess, Bytes, u32, SeedHook) {
    if best == 0 {
        (Control::NoTarget, s, m, clamp, hook)
    } else if handle is None {
        (Control::Spectate, watching(s), m, clamp, hook)
    } else if player_handle(m, l.tls) == handle {
        (Control::OwnUnit, watching(s), m, clamp, hook)
    } else {
        let o = bound(m, l, clamp, hook, handle->0);
        (
            Control::Bound(o.b),
            controlling_state(s, handle->0, l.pawn, o.b),
            o.m,
            o.clamp,
            hook_bound(hook, o),
        )
    }
}

/// Take control of the picked target `best`, whose unit is `handle`. A target whose unit is not
/// known, or is the player's own, is only watched. Otherwise the unit's AI is stopped and
/// detached, the player joins its team, the turn rate is widened, both bindings are redirected,
/// the owner is stamped and the seed detour is installed. A cursor that the overlay has is given
/// up first. The host is then to hide the pawn, set the third-person perspective and show the
/// target's body.
pub fn control(
    s: &mut Possess,
    q: &mut Queue,
    cam: &mut CamData,
    m: &mut Memory,
    l: Links,
    clamp: &mut u32,
    hook: &mut SeedHook,
    best: u64,
    handle: Option<u32>,
) -> (r: Control)
    requires
        old(q).wf(),
    ensures
        final(q).wf(),
        final(q)@ == cursor_dropped(*old(s), old(q)@),
        *final(cam) == left_free(*old(cam), best),
        (r, *final(s), final(m)@, *final(clamp), *final(hook)) == taking(
            *old(s),
            old(m)@,
            l,
            *old(clamp),
            *old(hook),
            best,
            handle,
        ),
{
    if s.cursor {
        cmd::push(q, Cmd::ImguiInput);
    }
    if best == 0 {
        return Control::NoTarget;
    }
    cam.freecam = false;
    s.third = true;
    let h = match handle {
        None => {
            s.follow = true;
            return Control::Spectate;
        },
        Some(h) => h,
    };
    if let Some(own) = player_unit_handle(m, l.tls) {
        if own == h {
            s.follow = true;
            return Control::OwnUnit;
        }
    }
    s.cur_handle = h;
    let (braindead, old_ai) = detach_ai(m, l.tls, h);
    s.braindead_saved = match braindead {
        Some(v) => v,
        None => 1,
    };
    s.saved_ai_datum = match old_ai {
        Some(v) => v,
        None => NO_HANDLE,
    };
    let (team, old_team) = join_team(m, l.tls, h);
    if let Some(w) = team {
        s.possessed_team = w as u32;
    }
    if old_team.is_some() {
        s.saved_player_team = old_team;
    }
    set_turn_clamp(clamp, m, l.sim_base, CONTROL_TURN_RATE);
    let (old_player, old_control) = redirect(m, l.tls, h);
    s.saved_player_handle = match old_player {
        Some(v) => v,
        None => NO_HANDLE,
    };
    s.saved_control_handle = match old_control {
        Some(v) => v,
        None => NO_HANDLE,
    };
    s.pawn_ptr = l.pawn;
    let install = sim_seed::install(hook, m, l.sim_base, l.fresh, l.relay);
    s.control = true;
    s.follow = true;
    Control::Bound(
        Binding { braindead, old_ai, team, old_team, old_player, old_control, install },
    )
}

/// The state after control begins to be released: the release itself waits for the game thread.
pub open spec fn letting_go(s: Possess) -> Possess {
    Possess { control: false, releasing: s.releasing || s.control, ..s }
}

fn restore_control(s: &mut Possess) -> (r: bool)
    ensures
        r == old(s).control,
        *final(s) == letting_go(*old(s)),
{
    if s.control {
        s.control = false;
        s.releasing = true;
        true
    } else {
        false
    }
}

/// Stop following, and begin to release a controlled unit. Returns whether control was released
/// and whether the camera was.
pub fn unpossess(s: &mut Possess) -> (r: (bool, bool))
    ensures
        r == (old(s).control, old(s).follow),
        *final(s) == (Possess { follow: false, ..letting_go(*old(s)) }),
{
    let released = restore_control(s);
    let followed = s.follow;
    s.follow = false;
    (released, followed)
}

/// The target can no longer be read: stop following, and begin to release a controlled unit.
/// Returns whether control was released and whether the camera was.
pub fn on_target_lost(s: &mut Possess) -> (r: (bool, bool))
    ensures
        r == (old(s).control, old(s).follow),
        *final(s) == (Possess { follow: false, ..letting_go(*old(s)) }),
{
    let released = restore_control(s);
    let followed = s.follow;
    s.follow = false;
    (released, followed)
}

/// The possession key: release while following. True if control is to be taken instead.
pub fn toggle(s: &mut Possess) -> (r: bool)
    ensures
        r == !old(s).follow,
        *final(s) == if old(s).follow {
            Possess { follow: false, ..letting_go(*old(s)) }
        } else {
            *old(s)
        },
{
    if s.follow {
        unpossess(s);
        false
    } else {
        true
    }
}

/// The possession key pressed twice takes control and releases it: after the second press a
/// release waits, and once it has been carried out nothing of the first press is left.
pub proof fn law_toggle_twice_releases(s: Possess, h: u32, pawn: u64, b: Binding)
    requires
        !s.control,
        !s.releasing,
    ensures
        ({
            let taken = controlling_state(s, h, pawn, b);
            let let_go = Possess { follow: false, ..letting_go(taken) };
            let done = released_state(let_go);
            &&& taken.follow
            &&& let_go.releasing
            &&& !done.control
            &&& !done.follow
            &&& !done.releasing
            &&& done.cur_handle == NO_HANDLE
            &&& done.saved_player_handle == NO_HANDLE
            &&& done.saved_control_handle == NO_HANDLE
            &&& done.saved_player_team is None
            &&& done.pawn_ptr == 0
        }),
{
}

/// A tick does nothing while no unit is controlled. With the unit alive, control goes on: memory
/// is written, the state keeps all that was kept, and a report is due on one tick of every 60. A
/// unit that is gone is let go of, with nothing written, and a release waits.
pub proof fn law_tick_outcomes(s: Possess, m: Bytes, tls: u64, target: [u32; 3], moved: u32)
    ensures
        ({
            let (r, n, p) = ticked(s, m, tls, target, moved);
            let idle = !s.control || s.cur_handle == 0xffff_ffff;
            &&& idle <==> r is Idle
            &&& idle ==> n == s && p == m
            &&& r is Lost <==> !idle && !live(m, tls, s.cur_handle)
            &&& r is Lost ==> {
                &&& p == m
                &&& !n.control
                &&& n.releasing
                &&& n == (Possess { control: n.control, releasing: n.releasing, ..s })
            }
            &&& r matches Tick::Held { pawn, drifted, report } ==> {
                &&& n.control
                &&& n == (Possess { anchor_moved: n.anchor_moved, diag_ctr: n.diag_ctr, ..s })
                &&& pawn == s.pawn_ptr
                &&& report <==> s.diag_ctr as int % 60 == 0
                &&& s.diag_ctr < u32::MAX ==> n.diag_ctr == s.diag_ctr + 1
                &&& drifted <==> (pawn != 0 && u8_at(p, off(pawn, PAWN_PERSPECTIVE)) is Some
                    && u8_at(p, off(pawn, PAWN_PERSPECTIVE)) != Some(2u8))
            }
        }),
{
}

/// Taking control needs a target. One whose unit is not known, or is the player's own, is only
/// watched, with nothing written. Any other unit is controlled from then on, is watched in third
/// person, and what was there before is kept.
pub proof fn law_taking_outcomes(
    s: Possess,
    m: Bytes,
    l: Links,
    clamp: u32,
    hook: SeedHook,
    best: u64,
    handle: Option<u32>,
)
    ensures
        ({
            let (r, n, p, c, k) = taking(s, m, l, clamp, hook, best, handle);
            let own = handle is Some && player_handle(m, l.tls) == handle;
            &&& r is NoTarget <==> best == 0
            &&& r is Spectate <==> best != 0 && handle is None
            &&& r is OwnUnit <==> best != 0 && own
            &&& r is NoTarget ==> n == s
            &&& !(r is Bound) ==> p == m && c == clamp && k == hook && n.control == s.control
            &&& best != 0 ==> n.third && n.follow && n.target == s.target
            &&& r matches Control::Bound(b) ==> {
                &&& n.control
                &&& Some(n.cur_handle) == handle
                &&& n.pawn_ptr == l.pawn
                &&& b.old_player matches Some(x) ==> n.saved_player_handle == x
                &&& b.old_control matches Some(x) ==> n.saved_control_handle == x
                &&& b.old_ai matches Some(x) ==> n.saved_ai_datum == x
                &&& b.old_team is Some ==> n.saved_player_team == b.old_team
                &&& b.team matches Some(w) ==> n.possessed_team == w
                &&& b.braindead matches Some(x) ==> n.braindead_saved == x
                &&& n.releasing == s.releasing && n.cursor == s.cursor
            }
        }),
{
}

/// A target takes the camera away from free flight, and changes nothing else of it. The overlay's
/// cursor, and only where the overlay has it, is given up by one command behind the others.
pub proof fn law_taking_needs_view(s: Possess, c: CamData, best: u64, q: Seq<Cmd>)
    ensures
        left_free(c, best).freecam == (c.freecam && best == 0),
        left_free(c, best) == (CamData { freecam: left_free(c, best).freecam, ..c }),
        s.cursor ==> cursor_dropped(s, q) == q.push(Cmd::ImguiInput),
        !s.cursor ==> cursor_dropped(s, q) == q,
{
}

/// The lines that enable and disable the AI are the same but for the flag at their end.
pub proof fn law_ai_lines(on: bool)
    ensures
        ai_line(on) == "hs:ai_enable "@.push(
            if on {
                '1'
            } else {
                '0'
            },
        ),
{
    reveal_strlit("hs:ai_enable ");
    reveal_strlit("hs:ai_enable 1");
    reveal_strlit("hs:ai_enable 0");
    assert(ai_line(on) =~= "hs:ai_enable "@.push(
        if on {
            '1'
        } else {
            '0'
        },
    ));
}

/// The names of a view set it whatever it was, and any other name switches over, so that giving
/// such a name twice changes nothing.
pub proof fn law_views(third: bool, which: Seq<char>)
    requires
        which != "first"@ && which != "fp"@ && which != "1"@,
        which != "third"@ && which != "tp"@ && which != "3"@,
    ensures
        !view_for(third, "first"@),
        !view_for(third, "fp"@),
        !view_for(third, "1"@),
        view_for(third, "third"@),
        view_for(third, "tp"@),
        view_for(third, "3"@),
        view_for(third, which) != third,
        view_for(view_for(third, which), which) == third,
{
    reveal_strlit("first");
    reveal_strlit("fp");
    reveal_strlit("1");
    reveal_strlit("third");
    reveal_strlit("tp");
    reveal_strlit("3");
    assert("third"@[0] == 't' && "first"@[0] == 'f');
    assert("tp"@[0] == 't' && "fp"@[0] == 'f');
    assert("3"@[0] == '3' && "1"@[0] == '1');
}

/// The teams by number, as the game has them: of the ten, four have no use, and a number above
/// is taken for the last.
pub proof fn law_teams(team: u8)
    ensures
        team_name(0) == "default"@ && team_name(1) == "player"@ && team_name(2) == "human"@,
        team_name(3) == "covenant"@ && team_name(4) == "flood"@ && team_name(5) == "sentinel"@,
        6 <= team <= 9 ==> team_name(team) == "unused"@.push((0x30 + team) as char),
        team >= 9 ==> team_name(team) == team_name(9),
{
    reveal_strlit("unused");
    reveal_strlit("unused6");
    reveal_strlit("unused7");
    reveal_strlit("unused8");
    reveal_strlit("unused9");
    if 6 <= team <= 9 {
        assert(team_name(team) =~= "unused"@.push((0x30 + team) as char));
    }
}

/// The team of a controlled unit is the lower byte of its team word: of the one that was recorded
/// when it was taken, or, where none was, of the one that it has.
pub proof fn law_team_of_possessed(s: Possess, m: Bytes, tls: u64)
    ensures
        !s.control ==> possessed_team(s, m, tls) is None,
        s.control && s.possessed_team != 0 ==> possessed_team(s, m, tls) == Some(
            (s.possessed_team as int % 256) as u8,
        ),
        s.control && s.possessed_team == 0 && s.cur_handle != 0xffff_ffff ==> (possessed_team(
            s,
            m,
            tls,
        ) matches Some(t) ==> team_of(m, tls, s.cur_handle) matches Some(w) && w as int % 256 == t),
{
}

/// Letting go stops the control. A release waits from then on where a unit was controlled, or
/// waited already. What is kept of the player stays until the release.
pub proof fn law_letting_go(s: Possess)
    ensures
        ({
            let n = letting_go(s);
            &&& !n.control
            &&& n.releasing <==> s.releasing || s.control
            &&& n == (Possess { control: n.control, releasing: n.releasing, ..s })
        }),
{
}

/// A release is carried out once. Nothing of the binding is kept any more, and the view, the
/// target and what is followed are as they were.
pub proof fn law_released_state(s: Possess)
    ensures
        ({
            let n = released_state(s);
            &&& !n.releasing
            &&& n.cur_handle == 0xffff_ffff
            &&& n.saved_player_handle == 0xffff_ffff
            &&& n.saved_control_handle == 0xffff_ffff
            &&& s.cur_handle != 0xffff_ffff ==> n.saved_ai_datum == 0xffff_ffff
            &&& n.saved_player_team is None
            &&& n.pawn_ptr == 0
            &&& n.control == s.control && n.follow == s.follow && n.third == s.third
            &&& n.target == s.target && n.target_idx == s.target_idx && n.cursor == s.cursor
        }),
{
}

/// Watching a target shows it in third person and follows it, and controls nothing.
pub proof fn law_watching(s: Possess)
    ensures
        watching(s).third,
        watching(s).follow,
        watching(s).control == s.control,
        watching(s) == (Possess { third: true, follow: true, ..s }),
{
}

} // verus!
