//! The local player's bindings: the unit the player moves, the unit the player aims and fires
//! with, and the team the player is seen as.

use vstd::prelude::*;

use super::objects::{
    NO_HANDLE, PCG_LOCAL0_HANDLE, PCG_TLS_SLOT, S_PLAYER_UNIT_HANDLE, index_of, local_player,
    local_player_handle, player_unit_slot, unit_slot,
};
use crate::ieee::{abs32, finite32, is_finite32, less32, lt32, magnitude32};
use crate::memory::{
    Bytes, Memory, back, elem, elem_addr, i32_at, i8_at, link, off, pattern8, signed16, store32,
    store8, store_triple, to_i16, u32_at, u8_at,
};

verus! {

pub const PLAYER_TEAM: u64 = 0xac; // i8, in the player record

pub const CTL_BUF_TLS_SLOT: u64 = 0xb8; // control elements

pub const PCG_CTLSLOT_BASE: u64 = 0x74; // i32 by player: index of the control element

pub const CTL_ELEM_STRIDE: u32 = 0x198;

pub const CTL_ELEM_UNIT: u64 = 0x80; // u32: the unit that aims and fires

pub const CTL_ELEM_LOOK: u64 = 0x94; // 3 floats

/// Address of the local player's team byte: 0 if it cannot be resolved.
pub open spec fn team_slot(m: Bytes, tls: u64) -> u64 {
    if unit_slot(m, tls) == 0 {
        0
    } else {
        off(back(unit_slot(m, tls), S_PLAYER_UNIT_HANDLE), PLAYER_TEAM)
    }
}

/// The index of the local player, by which units are owned.
pub open spec fn player_index(m: Bytes, tls: u64) -> Option<i16> {
    match local_player(m, tls) {
        None => None,
        Some((pcg, h)) => Some(signed16((h % 0x1_0000) as u16)),
    }
}

/// The team the local player is seen as.
pub open spec fn team_byte(m: Bytes, tls: u64) -> Option<i8> {
    if team_slot(m, tls) == 0 {
        None
    } else {
        i8_at(m, team_slot(m, tls))
    }
}

/// Address of the unit handle in the local player's control element: 0 if it cannot be
/// resolved.
pub open spec fn control_slot(m: Bytes, tls: u64) -> u64 {
    match local_player(m, tls) {
        None => 0,
        Some((pcg, h)) => match i32_at(m, elem(off(pcg, PCG_CTLSLOT_BASE), index_of(h), 4)) {
            None => 0,
            Some(i) => if i < 0 {
                0
            } else {
                match link(m, off(tls, CTL_BUF_TLS_SLOT)) {
                    None => 0,
                    Some(buf) => off(elem(buf, i as int, CTL_ELEM_STRIDE as int), CTL_ELEM_UNIT),
                }
            },
        },
    }
}

/// The value in the 32-bit slot at `s`, where the slot is resolved.
pub open spec fn slot_value(m: Bytes, s: u64) -> Option<u32> {
    if s == 0 {
        None
    } else {
        u32_at(m, s)
    }
}

/// Memory after the 32-bit slot at `s` becomes `v`. An unresolved slot changes nothing.
pub open spec fn slot_set(m: Bytes, s: u64, v: u32) -> Bytes {
    if s == 0 {
        m
    } else {
        store32(m, s, v)
    }
}

fn swap_slot(m: &mut Memory, s: u64, v: u32) -> (r: Option<u32>)
    ensures
        r == slot_value(old(m)@, s),
        final(m)@ == slot_set(old(m)@, s, v),
{
    if s == 0 {
        return None;
    }
    let prev = m.read_u32(s)?;
    m.write_u32(s, v);
    Some(prev)
}

/// Address of the local player's team byte (0 if unresolved).
pub fn player_team_byte_slot(m: &mut Memory, tls: u64) -> (r: u64)
    ensures
        r == team_slot(old(m)@, tls),
        final(m)@ == old(m)@,
{
    let s = player_unit_slot(m, tls);
    if s == 0 {
        return 0;
    }
    s.wrapping_sub(S_PLAYER_UNIT_HANDLE).wrapping_add(PLAYER_TEAM)
}

/// The team the local player is seen as.
pub fn player_team_byte(m: &mut Memory, tls: u64) -> (r: Option<i8>)
    ensures
        r == team_byte(old(m)@, tls),
        final(m)@ == old(m)@,
{
    let s = player_team_byte_slot(m, tls);
    if s == 0 {
        return None;
    }
    m.read_i8(s)
}

/// Change the team the local player is seen as, and return the previous one. This flips both
/// who shows as friendly and who targets the player.
pub fn set_player_team_byte(m: &mut Memory, tls: u64, team: i8) -> (r: Option<i8>)
    ensures
        r == team_byte(old(m)@, tls),
        final(m)@ == if team_slot(old(m)@, tls) == 0 {
            old(m)@
        } else {
            store8(old(m)@, team_slot(old(m)@, tls), pattern8(team))
        },
{
    let s = player_team_byte_slot(m, tls);
    if s == 0 {
        return None;
    }
    let prev = m.read_i8(s)?;
    m.write_i8(s, team);
    Some(prev)
}

/// Put the local player's team back to `team`.
pub fn restore_player_team_byte(m: &mut Memory, tls: u64, team: i8)
    ensures
        final(m)@ == if team_slot(old(m)@, tls) == 0 {
            old(m)@
        } else {
            store8(old(m)@, team_slot(old(m)@, tls), pattern8(team))
        },
{
    let s = player_team_byte_slot(m, tls);
    if s != 0 {
        m.write_i8(s, team);
    }
}

/// Putting back the team that a change returned restores memory, as long as the change did not
/// move the team byte.
pub proof fn law_team_restored(m: Bytes, tls: u64, team: i8)
    requires
        team_slot(m, tls) != 0,
        i8_at(m, team_slot(m, tls)) is Some,
        team_slot(store8(m, team_slot(m, tls), pattern8(team)), tls) == team_slot(m, tls),
    ensures
        ({
            let changed = store8(m, team_slot(m, tls), pattern8(team));
            let prev = i8_at(m, team_slot(m, tls))->0;
            store8(changed, team_slot(changed, tls), pattern8(prev)) == m
        }),
{
    let s = team_slot(m, tls);
    let prev = i8_at(m, s)->0;
    assert(pattern8(prev) == u8_at(m, s)->0);
    assert(store8(store8(m, s, pattern8(team)), s, pattern8(prev)) =~= m);
}

/// Address of the unit handle in the local player's control element (0 if unresolved).
pub fn control_unit_slot(m: &mut Memory, tls: u64) -> (r: u64)
    ensures
        r == control_slot(old(m)@, tls),
        final(m)@ == old(m)@,
{
    match local_player_handle(m, tls) {
        None => 0,
        Some((pcg, h)) => {
            let at = elem_addr(pcg.wrapping_add(PCG_CTLSLOT_BASE), (h % 0x1_0000) as u64, 4);
            match m.read_i32(at) {
                None => 0,
                Some(i) => if i < 0 {
                    0
                } else {
                    match m.read_link(tls.wrapping_add(CTL_BUF_TLS_SLOT)) {
                        None => 0,
                        Some(buf) => elem_addr(buf, i as u64, CTL_ELEM_STRIDE).wrapping_add(
                            CTL_ELEM_UNIT,
                        ),
                    }
                },
            }
        },
    }
}

/// Point aim and fire at the unit `new_h`, and return the handle that was there (`None` if the
/// slot is unresolved).
pub fn set_control_unit_handle(m: &mut Memory, tls: u64, new_h: u32) -> (r: Option<u32>)
    ensures
        r == slot_value(old(m)@, control_slot(old(m)@, tls)),
        final(m)@ == slot_set(old(m)@, control_slot(old(m)@, tls), new_h),
{
    let s = control_unit_slot(m, tls);
    swap_slot(m, s, new_h)
}

/// Point aim and fire at the unit `h`.
pub fn assert_control_unit_handle(m: &mut Memory, tls: u64, h: u32)
    ensures
        final(m)@ == slot_set(old(m)@, control_slot(old(m)@, tls), h),
{
    let s = control_unit_slot(m, tls);
    if s != 0 {
        m.write_u32(s, h);
    }
}

/// Overwrite the local player's unit handle, and return the previous one (`None` if the slot is
/// unresolved). The simulation routes the player's movement to whatever unit this slot names.
pub fn set_player_unit_handle(m: &mut Memory, tls: u64, new_h: u32) -> (r: Option<u32>)
    ensures
        r == slot_value(old(m)@, unit_slot(old(m)@, tls)),
        final(m)@ == slot_set(old(m)@, unit_slot(old(m)@, tls), new_h),
{
    let s = player_unit_slot(m, tls);
    swap_slot(m, s, new_h)
}

/// Setting a slot to a value and then to the value it had before restores memory.
pub proof fn law_slot_restored(m: Bytes, s: u64, v: u32)
    requires
        slot_value(m, s) is Some,
    ensures
        slot_value(slot_set(m, s, v), s) == Some(v),
        slot_set(slot_set(m, s, v), s, slot_value(m, s)->0) == m,
{
    crate::memory::lemma_put32_frame(m, s, v);
    crate::memory::lemma_restore32(m, s, v, slot_value(m, s)->0);
}

/// Possession is reversible: setting the player's unit handle and then setting the handle that
/// came back restores memory, as long as the first write did not move the slot.
pub proof fn law_player_unit_restored(m: Bytes, tls: u64, h: u32)
    requires
        slot_value(m, unit_slot(m, tls)) is Some,
        unit_slot(slot_set(m, unit_slot(m, tls), h), tls) == unit_slot(m, tls),
    ensures
        ({
            let taken = slot_set(m, unit_slot(m, tls), h);
            let prev = slot_value(m, unit_slot(m, tls))->0;
            slot_set(taken, unit_slot(taken, tls), prev) == m
        }),
{
    law_slot_restored(m, unit_slot(m, tls), h);
}

/// The same for the unit that aims and fires.
pub proof fn law_control_unit_restored(m: Bytes, tls: u64, h: u32)
    requires
        slot_value(m, control_slot(m, tls)) is Some,
        control_slot(slot_set(m, control_slot(m, tls), h), tls) == control_slot(m, tls),
    ensures
        ({
            let taken = slot_set(m, control_slot(m, tls), h);
            let prev = slot_value(m, control_slot(m, tls))->0;
            slot_set(taken, control_slot(taken, tls), prev) == m
        }),
{
    law_slot_restored(m, control_slot(m, tls), h);
}

/// The local player's look angles, yaw and pitch in radians, where they are plausible.
pub open spec fn look_angles(m: Bytes, tls: u64) -> Option<(u32, u32)> {
    let s = control_slot(m, tls);
    let e = back(s, CTL_ELEM_UNIT);
    if s == 0 {
        None
    } else {
        match (u32_at(m, off(e, 0x94)), u32_at(m, off(e, 0x98))) {
            (Some(yaw), Some(pitch)) => if finite32(yaw) && finite32(pitch) && less32(
                magnitude32(yaw),
                0x40e0_0000,
            ) && less32(magnitude32(pitch), 0x4000_0000) {
                Some((yaw, pitch))
            } else {
                None
            },
            _ => None,
        }
    }
}

/// The local player's look angles from the control element: yaw and pitch, finite, with the yaw
/// under 7 and the pitch under 2 either way.
pub fn player_look_angles(m: &mut Memory, tls: u64) -> (r: Option<(u32, u32)>)
    ensures
        r == look_angles(old(m)@, tls),
        final(m)@ == old(m)@,
{
    let s = control_unit_slot(m, tls);
    if s == 0 {
        return None;
    }
    let e = s.wrapping_sub(CTL_ELEM_UNIT);
    let yaw = m.read_u32(e.wrapping_add(0x94))?;
    let pitch = m.read_u32(e.wrapping_add(0x98))?;
    if is_finite32(yaw) && is_finite32(pitch) && lt32(abs32(yaw), 0x40e0_0000) && lt32(
        abs32(pitch),
        0x4000_0000,
    ) {
        Some((yaw, pitch))
    } else {
        None
    }
}

/// Memory after the look vector of the control element is written.
pub open spec fn look_driven(m: Bytes, tls: u64, fwd: [u32; 3]) -> Bytes {
    let s = control_slot(m, tls);
    if s == 0 {
        m
    } else {
        store_triple(m, off(back(s, CTL_ELEM_UNIT), CTL_ELEM_LOOK), fwd).0
    }
}

/// Write the look vector of the control element, which movement and aim follow.
pub fn drive_control_look(m: &mut Memory, tls: u64, fwd: [u32; 3])
    ensures
        final(m)@ == look_driven(old(m)@, tls, fwd),
{
    let s = control_unit_slot(m, tls);
    if s == 0 {
        return;
    }
    m.write_triple(s.wrapping_sub(CTL_ELEM_UNIT).wrapping_add(CTL_ELEM_LOOK), fwd);
}

/// The fields of the control element around the look vector.
pub struct ControlElement {
    pub base: u64,
    pub unit: u32,
    /// The ten floats from offset 0x84 on.
    pub floats: [u32; 10],
}

/// What [`dump_control_element`] finds.
pub enum ElementDump {
    Unresolved,
    Faulted,
    Read(ControlElement),
}

/// Ten consecutive 32-bit values at `a`.
pub open spec fn ten_at(m: Bytes, a: u64) -> Option<[u32; 10]> {
    match (
        u32_at(m, a),
        u32_at(m, off(a, 4)),
        u32_at(m, off(a, 8)),
        u32_at(m, off(a, 12)),
        u32_at(m, off(a, 16)),
        u32_at(m, off(a, 20)),
        u32_at(m, off(a, 24)),
        u32_at(m, off(a, 28)),
        u32_at(m, off(a, 32)),
        u32_at(m, off(a, 36)),
    ) {
        (
            Some(a0),
            Some(a1),
            Some(a2),
            Some(a3),
            Some(a4),
            Some(a5),
            Some(a6),
            Some(a7),
            Some(a8),
            Some(a9),
        ) => Some([a0, a1, a2, a3, a4, a5, a6, a7, a8, a9]),
        _ => None,
    }
}

/// The control element's fields, for diagnosis.
pub open spec fn element_dump(m: Bytes, tls: u64) -> ElementDump {
    let s = control_slot(m, tls);
    let base = back(s, CTL_ELEM_UNIT);
    if s == 0 {
        ElementDump::Unresolved
    } else {
        match (u32_at(m, off(base, CTL_ELEM_UNIT)), ten_at(m, off(base, 0x84))) {
            (Some(unit), Some(floats)) => ElementDump::Read(ControlElement { base, unit, floats }),
            _ => ElementDump::Faulted,
        }
    }
}

fn read_ten(m: &mut Memory, a: u64) -> (r: Option<[u32; 10]>)
    ensures
        r == ten_at(old(m)@, a),
        final(m)@ == old(m)@,
{
    let a0 = m.read_u32(a)?;
    let a1 = m.read_u32(a.wrapping_add(4))?;
    let a2 = m.read_u32(a.wrapping_add(8))?;
    let a3 = m.read_u32(a.wrapping_add(12))?;
    let a4 = m.read_u32(a.wrapping_add(16))?;
    let a5 = m.read_u32(a.wrapping_add(20))?;
    let a6 = m.read_u32(a.wrapping_add(24))?;
    let a7 = m.read_u32(a.wrapping_add(28))?;
    let a8 = m.read_u32(a.wrapping_add(32))?;
    let a9 = m.read_u32(a.wrapping_add(36))?;
    Some([a0, a1, a2, a3, a4, a5, a6, a7, a8, a9])
}

/// Read the control element's fields around the look vector, for diagnosis.
pub fn dump_control_element(m: &mut Memory, tls: u64) -> (r: ElementDump)
    ensures
        r == element_dump(old(m)@, tls),
        final(m)@ == old(m)@,
{
    let s = control_unit_slot(m, tls);
    if s == 0 {
        return ElementDump::Unresolved;
    }
    let base = s.wrapping_sub(CTL_ELEM_UNIT);
    let unit = match m.read_u32(base.wrapping_add(CTL_ELEM_UNIT)) {
        Some(u) => u,
        None => return ElementDump::Faulted,
    };
    match read_ten(m, base.wrapping_add(0x84)) {
        Some(floats) => ElementDump::Read(ControlElement { base, unit, floats }),
        None => ElementDump::Faulted,
    }
}

/// The local player's index.
pub fn local_player_index(m: &mut Memory, tls: u64) -> (r: Option<i16>)
    ensures
        r == player_index(old(m)@, tls),
        final(m)@ == old(m)@,
{
    let (_pcg, h) = local_player_handle(m, tls)?;
    Some(to_i16((h % 0x1_0000) as u16))
}

/// The handle of observer `i`; the handles from the first fault on read as no handle.
pub open spec fn observer(m: Bytes, tls: u64, i: int) -> u32 {
    if tls == 0 {
        NO_HANDLE
    } else {
        match link(m, off(tls, PCG_TLS_SLOT)) {
            None => NO_HANDLE,
            Some(pcg) => if forall|k: int|
                0 <= k <= i ==> u32_at(m, #[trigger] elem(off(pcg, PCG_LOCAL0_HANDLE), k, 4)) is Some {
                u32_at(m, elem(off(pcg, PCG_LOCAL0_HANDLE), i, 4))->0
            } else {
                NO_HANDLE
            },
        }
    }
}

/// The handles of the four player observers.
pub fn observer_handles(m: &mut Memory, tls: u64) -> (r: [u32; 4])
    ensures
        forall|i: int| 0 <= i < 4 ==> r[i] == observer(old(m)@, tls, i),
        final(m)@ == old(m)@,
{
    let mut out: [u32; 4] = [NO_HANDLE, NO_HANDLE, NO_HANDLE, NO_HANDLE];
    if tls == 0 {
        return out;
    }
    if let Some(pcg) = m.read_link(tls.wrapping_add(PCG_TLS_SLOT)) {
        let base = pcg.wrapping_add(PCG_LOCAL0_HANDLE);
        let mut i: usize = 0;
        while i < 4
            invariant
                i <= 4,
                tls != 0,
                m@ == old(m)@,
                link(m@, off(tls, PCG_TLS_SLOT)) == Some(pcg),
                base == off(pcg, PCG_LOCAL0_HANDLE),
                forall|k: int| 0 <= k < i ==> u32_at(m@, #[trigger] elem(base, k, 4)) is Some,
                forall|k: int| 0 <= k < i ==> out[k] == observer(m@, tls, k),
                forall|k: int| i <= k < 4 ==> out[k] == NO_HANDLE,
            decreases 4 - i,
        {
            match m.read_u32(elem_addr(base, i as u64, 4)) {
                Some(h) => {
                    out[i] = h;
                },
                None => {
                    assert(u32_at(m@, elem(base, i as int, 4)) is None);
                    return out;
                },
            }
            i += 1;
        }
    }
    out
}

/// The look angles are read of the local player's control element, yaw before pitch, where both are
/// numbers, the yaw below 7 and the pitch below 2 either way.
pub proof fn law_look_angles(m: Bytes, tls: u64, yaw: u32, pitch: u32)
    requires
        control_slot(m, tls) != 0,
        u32_at(m, off(back(control_slot(m, tls), 0x80), 0x94)) == Some(yaw),
        u32_at(m, off(back(control_slot(m, tls), 0x80), 0x98)) == Some(pitch),
    ensures
        look_angles(m, tls) == if finite32(yaw) && finite32(pitch) && less32(
            magnitude32(yaw),
            0x40e0_0000,
        ) && less32(magnitude32(pitch), 0x4000_0000) {
            Some((yaw, pitch))
        } else {
            None
        },
{
}

/// The look vector goes to 0x94 of the control element, whose unit stands at 0x80, and nothing is
/// written without an element.
pub proof fn law_look_driven(m: Bytes, tls: u64, fwd: [u32; 3])
    ensures
        control_slot(m, tls) == 0 ==> look_driven(m, tls, fwd) == m,
        control_slot(m, tls) != 0 ==> look_driven(m, tls, fwd) == store_triple(
            m,
            off(back(control_slot(m, tls), 0x80), 0x94),
            fwd,
        ).0,
{
}

/// The local player is the one whose handle the control globals hold at 0xb8. The player's entry in
/// the table of players, 0x4b0 bytes each, holds the unit at 0x28 and the team at 0xac.
pub proof fn law_player_slots(m: Bytes, tls: u64, pcg: u64, h: u32, players: u64, table: u64)
    requires
        tls != 0,
        link(m, off(tls, 0x118)) == Some(pcg),
        u32_at(m, off(pcg, 0xb8)) == Some(h),
        h != 0xffff_ffff,
        link(m, off(tls, 0x30)) == Some(players),
        link(m, off(players, 0x50)) == Some(table),
    ensures
        ({
            let entry = elem(table, h as int % 65536, 0x4b0);
            &&& unit_slot(m, tls) == off(entry, 0x28)
            &&& off(entry, 0x28) != 0 ==> team_slot(m, tls) == off(entry, 0xac)
            &&& player_index(m, tls) == Some(signed16((h % 65536) as u16))
        }),
{
}

/// The local player's control element is the one that the control globals number for the player,
/// from 0x74 on; it is 0x198 bytes long, and holds the unit at 0x80.
pub proof fn law_control_element(m: Bytes, tls: u64, pcg: u64, h: u32, i: i32, buf: u64)
    requires
        tls != 0,
        link(m, off(tls, 0x118)) == Some(pcg),
        u32_at(m, off(pcg, 0xb8)) == Some(h),
        h != 0xffff_ffff,
        i32_at(m, elem(off(pcg, 0x74), h as int % 65536, 4)) == Some(i),
        link(m, off(tls, 0xb8)) == Some(buf),
    ensures
        i >= 0 ==> control_slot(m, tls) == off(elem(buf, i as int, 0x198), 0x80),
        i < 0 ==> control_slot(m, tls) == 0,
{
}

} // verus!
