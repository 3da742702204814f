//! The weapon of a unit: its trigger and its barrel.

use vstd::prelude::*;

use super::objects::{
    NO_HANDLE, body_of, index_of, mark_active, marked_active, object_body, object_table,
    table_base,
};
use crate::memory::{
    Bytes, Memory, elem, elem_addr, i8_at, link, off, put16, u16_at, u32_at, u64_at, u8_at,
};

verus! {

pub const ACTBITS_TLS_SLOT: u64 = 0x3e0; // action bits by unit

pub const UNIT_WEAPON_SLOT: u64 = 0x33e; // i8 active weapon slot, -1 for none

pub const UNIT_WEAPON_ARRAY: u64 = 0x344; // u32 handles by slot

pub const WPN_BARREL0_STATE: u64 = 0x29c; // u8

pub const WPN_BARREL0_TRIGGER: u64 = 0x29d; // u8, bit 7: trigger held

pub const WPN_BARREL0_REFIRE: u64 = 0x2a0; // u16

pub const TRIGGER_HELD: u8 = 0x80;

/// The action bits of a unit.
pub open spec fn action_bits(m: Bytes, tls: u64, unit_handle: u32) -> Option<u32> {
    match link(m, off(tls, ACTBITS_TLS_SLOT)) {
        None => None,
        Some(bits) => u32_at(m, elem(bits, index_of(unit_handle), 4)),
    }
}

/// The primary-trigger bit, bit 3, is set.
pub open spec fn trigger_bit(bits: u32) -> bool {
    bits / 8 % 2 == 1
}

/// Whether the game itself holds the unit's primary trigger.
pub fn unit_primary_trigger(m: &mut Memory, tls: u64, unit_handle: u32) -> (r: bool)
    ensures
        r == match action_bits(old(m)@, tls, unit_handle) {
            None => false,
            Some(bits) => trigger_bit(bits),
        },
        final(m)@ == old(m)@,
{
    match m.read_link(tls.wrapping_add(ACTBITS_TLS_SLOT)) {
        None => false,
        Some(bits) => match m.read_u32(elem_addr(bits, (unit_handle % 0x1_0000) as u64, 4)) {
            None => false,
            Some(b) => b / 8 % 2 == 1,
        },
    }
}

/// The active weapon of the unit with the body `ubody`: its handle and its body.
pub open spec fn active_weapon(m: Bytes, tls: u64, ubody: u64) -> Option<(u32, u64)> {
    if ubody == 0 {
        None
    } else {
        match i8_at(m, off(ubody, UNIT_WEAPON_SLOT)) {
            None => None,
            Some(slot) => if slot < 0 {
                None
            } else {
                match u32_at(m, elem(off(ubody, UNIT_WEAPON_ARRAY), slot as int, 4)) {
                    None => None,
                    Some(h) => if h == NO_HANDLE || body_of(m, tls, h) == 0 {
                        None
                    } else {
                        Some((h, body_of(m, tls, h)))
                    },
                }
            },
        }
    }
}

fn find_active_weapon(m: &mut Memory, tls: u64, ubody: u64) -> (r: Option<(u32, u64)>)
    ensures
        r == active_weapon(old(m)@, tls, ubody),
        final(m)@ == old(m)@,
{
    if ubody == 0 {
        return None;
    }
    let slot = m.read_i8(ubody.wrapping_add(UNIT_WEAPON_SLOT))?;
    if slot < 0 {
        return None;
    }
    let h = m.read_u32(elem_addr(ubody.wrapping_add(UNIT_WEAPON_ARRAY), slot as u64, 4))?;
    if h == NO_HANDLE {
        return None;
    }
    let b = object_body(m, tls, h);
    if b == 0 {
        return None;
    }
    Some((h, b))
}

/// The active weapon's handle, and two of its fields, for diagnosis.
pub fn weapon_diag(m: &mut Memory, tls: u64, unit_handle: u32) -> (r: Option<(u32, u16, u8)>)
    ensures
        r == match active_weapon(old(m)@, tls, body_of(old(m)@, tls, unit_handle)) {
            None => None,
            Some((h, b)) => match (
                u16_at(old(m)@, off(b, 0x1ba)),
                u8_at(old(m)@, off(b, WPN_BARREL0_TRIGGER)),
            ) {
                (Some(x), Some(t)) => Some((h, x, t)),
                _ => None,
            },
        },
        final(m)@ == old(m)@,
{
    let ubody = object_body(m, tls, unit_handle);
    let (h, b) = find_active_weapon(m, tls, ubody)?;
    let x = m.read_u16(b.wrapping_add(0x1ba))?;
    let t = m.read_u8(b.wrapping_add(WPN_BARREL0_TRIGGER))?;
    Some((h, x, t))
}

/// One line of a weapon report.
pub enum WeaponLine {
    /// The active weapon slot.
    Slot(i8),
    /// The handle held in a slot.
    Held { slot: u8, handle: u32 },
    /// The active weapon and its body.
    Active { handle: u32, body: u64 },
    /// Two fields of the active weapon.
    Fields { word: u16, trigger: u8 },
    /// The unit's action bits.
    Actions { base: u64, index: u32, bits: u32 },
}

/// The lines for the held weapons from slot `s` on, and whether there was no fault.
pub open spec fn held_lines(m: Bytes, ubody: u64, s: int) -> (Seq<WeaponLine>, bool)
    decreases 4 - s,
{
    if s >= 4 {
        (Seq::empty(), true)
    } else {
        match u32_at(m, elem(off(ubody, UNIT_WEAPON_ARRAY), s, 4)) {
            None => (Seq::empty(), false),
            Some(h) => {
                let rest = held_lines(m, ubody, s + 1);
                (seq![WeaponLine::Held { slot: s as u8, handle: h }] + rest.0, rest.1)
            },
        }
    }
}

/// The lines for the active weapon, and whether there was no fault.
pub open spec fn active_lines(m: Bytes, tls: u64, ubody: u64, slot: i8) -> (Seq<WeaponLine>, bool) {
    if slot < 0 {
        (Seq::empty(), true)
    } else {
        match u32_at(m, elem(off(ubody, UNIT_WEAPON_ARRAY), slot as int, 4)) {
            None => (Seq::empty(), false),
            Some(h) => {
                let b = body_of(m, tls, h);
                let first = seq![WeaponLine::Active { handle: h, body: b }];
                if b == 0 {
                    (first, true)
                } else {
                    match (u16_at(m, off(b, 0x1ba)), u8_at(m, off(b, WPN_BARREL0_TRIGGER))) {
                        (Some(word), Some(trigger)) => (
                            first.push(WeaponLine::Fields { word, trigger }),
                            true,
                        ),
                        _ => (first, false),
                    }
                }
            },
        }
    }
}

/// The line for the unit's action bits: none on a fault. A unit without action bits reads as
/// zero.
pub open spec fn action_line(m: Bytes, tls: u64, unit_handle: u32) -> Seq<WeaponLine> {
    match u64_at(m, off(tls, ACTBITS_TLS_SLOT)) {
        None => Seq::empty(),
        Some(base) => if base == 0 {
            seq![WeaponLine::Actions { base, index: unit_handle % 0x1_0000, bits: 0 }]
        } else {
            match u32_at(m, elem(base, index_of(unit_handle), 4)) {
                None => Seq::empty(),
                Some(bits) => seq![
                    WeaponLine::Actions { base, index: unit_handle % 0x1_0000, bits },
                ],
            }
        },
    }
}

/// The weapon report of the unit with the body `ubody`. A fault ends it.
pub open spec fn weapon_report(m: Bytes, tls: u64, unit_handle: u32, ubody: u64) -> Seq<
    WeaponLine,
> {
    if ubody == 0 {
        Seq::empty()
    } else {
        match i8_at(m, off(ubody, UNIT_WEAPON_SLOT)) {
            None => Seq::empty(),
            Some(slot) => {
                let head = seq![WeaponLine::Slot(slot)];
                let held = held_lines(m, ubody, 0);
                let active = active_lines(m, tls, ubody, slot);
                if !held.1 {
                    head + held.0
                } else if !active.1 {
                    head + held.0 + active.0
                } else {
                    head + held.0 + active.0 + action_line(m, tls, unit_handle)
                }
            },
        }
    }
}

fn push_held(m: &mut Memory, ubody: u64, out: &mut Vec<WeaponLine>) -> (r: bool)
    ensures
        final(out)@ == old(out)@ + held_lines(old(m)@, ubody, 0).0,
        r == held_lines(old(m)@, ubody, 0).1,
        final(m)@ == old(m)@,
{
    let mut s: u8 = 0;
    let ghost all = held_lines(m@, ubody, 0);
    while s < 4
        invariant
            s <= 4,
            m@ == old(m)@,
            all == held_lines(m@, ubody, 0),
            ({
                let rest = held_lines(m@, ubody, s as int);
                old(out)@ + all.0 == out@ + rest.0 && all.1 == rest.1
            }),
        decreases 4 - s,
    {
        match m.read_u32(elem_addr(ubody.wrapping_add(UNIT_WEAPON_ARRAY), s as u64, 4)) {
            None => {
                assert(out@ + Seq::<WeaponLine>::empty() =~= out@);
                return false;
            },
            Some(h) => {
                let line = WeaponLine::Held { slot: s, handle: h };
                let ghost prior = out@;
                let ghost rest = held_lines(m@, ubody, s + 1);
                out.push(line);
                assert(prior + (seq![line] + rest.0) =~= out@ + rest.0);
            },
        }
        s += 1;
    }
    assert(out@ + Seq::<WeaponLine>::empty() =~= out@);
    true
}

fn push_active(m: &mut Memory, tls: u64, ubody: u64, slot: i8, out: &mut Vec<WeaponLine>) -> (r:
    bool)
    ensures
        final(out)@ == old(out)@ + active_lines(old(m)@, tls, ubody, slot).0,
        r == active_lines(old(m)@, tls, ubody, slot).1,
        final(m)@ == old(m)@,
{
    if slot < 0 {
        assert(out@ + Seq::<WeaponLine>::empty() =~= out@);
        return true;
    }
    match m.read_u32(elem_addr(ubody.wrapping_add(UNIT_WEAPON_ARRAY), slot as u64, 4)) {
        None => {
            assert(out@ + Seq::<WeaponLine>::empty() =~= out@);
            false
        },
        Some(h) => {
            let b = object_body(m, tls, h);
            out.push(WeaponLine::Active { handle: h, body: b });
            if b == 0 {
                return true;
            }
            match (m.read_u16(b.wrapping_add(0x1ba)), m.read_u8(b.wrapping_add(WPN_BARREL0_TRIGGER))) {
                (Some(word), Some(trigger)) => {
                    out.push(WeaponLine::Fields { word, trigger });
                    true
                },
                _ => false,
            }
        },
    }
}

fn push_action(m: &mut Memory, tls: u64, unit_handle: u32, out: &mut Vec<WeaponLine>)
    ensures
        final(out)@ == old(out)@ + action_line(old(m)@, tls, unit_handle),
        final(m)@ == old(m)@,
{
    let index: u32 = unit_handle % 0x1_0000;
    match m.read_u64(tls.wrapping_add(ACTBITS_TLS_SLOT)) {
        None => {
            assert(out@ + Seq::<WeaponLine>::empty() =~= out@);
        },
        Some(base) => if base == 0 {
            out.push(WeaponLine::Actions { base, index, bits: 0 });
        } else {
            match m.read_u32(elem_addr(base, index as u64, 4)) {
                None => {
                    assert(out@ + Seq::<WeaponLine>::empty() =~= out@);
                },
                Some(bits) => {
                    out.push(WeaponLine::Actions { base, index, bits });
                },
            }
        },
    }
}

/// Report the weapon of a unit: its body, and the lines that could be read before a fault.
pub fn diag_weapon(m: &mut Memory, tls: u64, unit_handle: u32) -> (r: (u64, Vec<WeaponLine>))
    ensures
        r.0 == body_of(old(m)@, tls, unit_handle),
        r.1@ == weapon_report(old(m)@, tls, unit_handle, r.0),
        final(m)@ == old(m)@,
{
    let ubody = object_body(m, tls, unit_handle);
    let mut out: Vec<WeaponLine> = Vec::new();
    if ubody == 0 {
        return (ubody, out);
    }
    if let Some(slot) = m.read_i8(ubody.wrapping_add(UNIT_WEAPON_SLOT)) {
        out.push(WeaponLine::Slot(slot));
        assert(out@ =~= seq![WeaponLine::Slot(slot)]);
        if push_held(m, ubody, &mut out) {
            if push_active(m, tls, ubody, slot, &mut out) {
                push_action(m, tls, unit_handle, &mut out);
            }
        }
    }
    (ubody, out)
}

/// Memory after one shot is forced on the active weapon `h` with the body `b`.
pub open spec fn shot(m: Bytes, table: u64, h: u32, b: u64) -> Bytes {
    if u8_at(m, off(b, WPN_BARREL0_STATE)) is None {
        m
    } else {
        let m1 = m.insert(off(b, WPN_BARREL0_STATE), 1);
        if u16_at(m1, off(b, WPN_BARREL0_REFIRE)) is None {
            m1
        } else {
            marked_active(put16(m1, off(b, WPN_BARREL0_REFIRE), 0), table, h)
        }
    }
}

/// Force one shot: put the first barrel into its firing state with an expired refire counter,
/// and mark the weapon for update. Once per shot, not once per frame.
pub fn force_fire_shot(m: &mut Memory, tls: u64, unit_handle: u32)
    ensures
        final(m)@ == match active_weapon(old(m)@, tls, body_of(old(m)@, tls, unit_handle)) {
            None => old(m)@,
            Some((h, b)) => shot(old(m)@, table_base(old(m)@, tls), h, b),
        },
{
    let ubody = object_body(m, tls, unit_handle);
    let table = object_table(m, tls);
    if let Some((h, b)) = find_active_weapon(m, tls, ubody) {
        if m.write_u8(b.wrapping_add(WPN_BARREL0_STATE), 1) && m.write_u16(
            b.wrapping_add(WPN_BARREL0_REFIRE),
            0,
        ) {
            mark_active(m, table, h);
        }
    }
}

/// The trigger byte with the held bit set or cleared.
pub open spec fn trigger_byte(v: u8, firing: bool) -> u8 {
    if firing {
        v | TRIGGER_HELD
    } else {
        v & !TRIGGER_HELD
    }
}

/// Memory after the trigger of the active weapon is held or released, and whether it was.
pub open spec fn triggered(m: Bytes, tls: u64, unit_handle: u32, firing: bool) -> (Bytes, bool) {
    match active_weapon(m, tls, body_of(m, tls, unit_handle)) {
        None => (m, false),
        Some((h, b)) => {
            let a = off(b, WPN_BARREL0_TRIGGER);
            let table = table_base(m, tls);
            match u8_at(m, a) {
                None => (m, false),
                Some(v) => {
                    let m1 = m.insert(a, trigger_byte(v, firing));
                    (
                        marked_active(m1, table, h),
                        table == 0 || u8_at(
                            m1,
                            off(
                                super::objects::record(table, index_of(h)),
                                super::objects::OBJ_REC_ACTIVE,
                            ),
                        ) is Some,
                    )
                },
            }
        },
    }
}

/// What came of driving a weapon's trigger.
pub struct Fired {
    /// The trigger state that was written; `None` if there is no weapon to write it to.
    pub drove: Option<bool>,
    /// The mouse button changed since the last time.
    pub edge: bool,
    /// The game's own trigger bit.
    pub act_bit: bool,
}

/// The report of a drive: what was written, whether the button changed, and the game's own bit.
pub open spec fn fired(written: bool, held: bool, firing: bool, bits: Option<u32>) -> Fired {
    Fired {
        drove: if written {
            Some(firing)
        } else {
            None
        },
        edge: held != firing,
        act_bit: match bits {
            None => false,
            Some(b) => trigger_bit(b),
        },
    }
}

/// Drive the trigger of a unit's weapon from the mouse button: hold it while `firing`, release
/// it otherwise, and mark the weapon for update. The game's own trigger bit is only reported: a
/// charging weapon discharges when the trigger is released, which a latched bit would prevent.
/// `held` remembers the button. `None` while the TLS block or the unit is unresolved.
pub fn drive_weapon_fire(
    m: &mut Memory,
    tls: u64,
    held: &mut bool,
    unit_handle: u32,
    firing: bool,
) -> (r: Option<Fired>)
    ensures
        ({
            let missing = tls == 0 || body_of(old(m)@, tls, unit_handle) == 0;
            let t = triggered(old(m)@, tls, unit_handle, firing);
            &&& r is None <==> missing
            &&& *final(held) == if missing {
                *old(held)
            } else {
                firing
            }
            &&& final(m)@ == if missing {
                old(m)@
            } else {
                t.0
            }
            &&& r matches Some(f) ==> f == fired(
                t.1,
                *old(held),
                firing,
                action_bits(old(m)@, tls, unit_handle),
            )
        }),
{
    if tls == 0 {
        return None;
    }
    let act_bit = unit_primary_trigger(m, tls, unit_handle);
    let ubody = object_body(m, tls, unit_handle);
    if ubody == 0 {
        return None;
    }
    let table = object_table(m, tls);
    let mut drove: Option<bool> = None;
    if let Some((h, b)) = find_active_weapon(m, tls, ubody) {
        let a = b.wrapping_add(WPN_BARREL0_TRIGGER);
        if let Some(v) = m.read_u8(a) {
            let w = if firing {
                v | TRIGGER_HELD
            } else {
                v & !TRIGGER_HELD
            };
            m.write_u8(a, w);
            let reachable = if table == 0 {
                true
            } else {
                m.read_u8(
                    super::objects::record_addr(table, h % 0x1_0000).wrapping_add(
                        super::objects::OBJ_REC_ACTIVE,
                    ),
                ).is_some()
            };
            mark_active(m, table, h);
            if reachable {
                drove = Some(firing);
            }
        }
    }
    let edge = *held != firing;
    *held = firing;
    Some(Fired { drove, edge, act_bit })
}

/// Holding and releasing a trigger changes bit 7 of the trigger byte and no other bit.
pub proof fn law_trigger_bit(v: u8, firing: bool)
    ensures
        (trigger_byte(v, firing) & 0x80 != 0) == firing,
        trigger_byte(v, firing) & !0x80 == v & !0x80,
{
    assert((v | 0x80u8) & 0x80u8 != 0 && (v & !0x80u8) & 0x80u8 == 0 && (v | 0x80u8) & !0x80u8 == v
        & !0x80u8 && (v & !0x80u8) & !0x80u8 == v & !0x80u8) by (bit_vector);
}

/// The active weapon of a unit is the one in its slot: the signed byte at 0x33e numbers the slot,
/// and the handles stand from 0x344 on, four bytes each. A negative slot means no weapon.
pub proof fn law_weapon_by_slot(m: Bytes, tls: u64, ubody: u64, slot: i8, h: u32)
    requires
        ubody != 0,
        i8_at(m, off(ubody, 0x33e)) == Some(slot),
        slot >= 0 ==> u32_at(m, elem(off(ubody, 0x344), slot as int, 4)) == Some(h),
    ensures
        slot < 0 ==> active_weapon(m, tls, ubody) is None,
        slot >= 0 && h != 0xffff_ffff && body_of(m, tls, h) != 0 ==> active_weapon(m, tls, ubody)
            == Some((h, body_of(m, tls, h))),
        slot >= 0 && (h == 0xffff_ffff || body_of(m, tls, h) == 0) ==> active_weapon(m, tls, ubody)
            is None,
{
}

/// A trigger that is held has bit 7 of the byte at 0x29d set, one that is released has it clear,
/// and the other bits stay. The weapon's record in the table lies elsewhere.
pub proof fn law_trigger_stands(
    m: Bytes,
    tls: u64,
    unit_handle: u32,
    firing: bool,
    h: u32,
    b: u64,
    v: u8,
)
    requires
        active_weapon(m, tls, body_of(m, tls, unit_handle)) == Some((h, b)),
        u8_at(m, off(b, 0x29d)) == Some(v),
        off(super::objects::record(table_base(m, tls), index_of(h)), 2) != off(b, 0x29d),
    ensures
        u8_at(triggered(m, tls, unit_handle, firing).0, off(b, 0x29d)) == Some(
            if firing {
                v | 0x80
            } else {
                v & !0x80
            },
        ),
{
}

/// A forced shot puts the first barrel into state 1, at 0x29c, and takes its refire counter, at
/// 0x2a0, to zero. The weapon's record in the table lies elsewhere.
pub proof fn law_shot_stands(m: Bytes, table: u64, h: u32, b: u64)
    requires
        u8_at(m, off(b, 0x29c)) is Some,
        u16_at(m, off(b, 0x2a0)) is Some,
        !crate::memory::inside(
            off(super::objects::record(table, index_of(h)), 2),
            off(b, 0x29c),
            6,
        ),
    ensures
        u8_at(shot(m, table, h, b), off(b, 0x29c)) == Some(1u8),
        u16_at(shot(m, table, h, b), off(b, 0x2a0)) == Some(0u16),
{
    let a = off(b, WPN_BARREL0_STATE);
    let c = off(b, WPN_BARREL0_REFIRE);
    let m1 = m.insert(a, 1);
    assert(c == off(a, 4));
    assert(crate::memory::agree(m1, m, c, 2)) by {
        assert forall|x: u64| #[trigger] crate::memory::inside(x, c, 2) implies u8_at(m1, x)
            == u8_at(m, x) by {
            assert(x != a);
        }
    }
    crate::memory::lemma_agree16(m1, m, c);
    let m2 = put16(m1, c, 0);
    crate::memory::lemma_put16_frame(m1, c, 0);
    assert(!crate::memory::inside(a, c, 2));
    let n = shot(m, table, h, b);
    let r = off(super::objects::record(table, index_of(h)), super::objects::OBJ_REC_ACTIVE);
    assert(a != r) by {
        assert(crate::memory::inside(a, a, 6));
    }
    assert(crate::memory::agree(n, m2, c, 2)) by {
        assert forall|x: u64| #[trigger] crate::memory::inside(x, c, 2) implies u8_at(n, x)
            == u8_at(m2, x) by {
            assert(crate::memory::inside(x, a, 6));
        }
    }
    crate::memory::lemma_agree16(n, m2, c);
}

/// The game's own trigger is the bit of value 8.
pub proof fn law_own_trigger(bits: u32)
    ensures
        trigger_bit(bits) <==> bits & 8 != 0,
{
    assert(bits / 8 % 2 == 1 <==> bits & 8 != 0) by (bit_vector);
}

/// A drive reports the state that it wrote, a change of the button against the time before, and the
/// game's own trigger, which it leaves alone.
pub proof fn law_fire_report(held: bool, firing: bool, bits: u32)
    ensures
        fired(true, held, firing, Some(bits)).drove == Some(firing),
        fired(false, held, firing, Some(bits)).drove is None,
        fired(true, firing, firing, Some(bits)).edge == false,
        fired(true, !firing, firing, Some(bits)).edge == true,
        fired(true, held, firing, Some(bits)).act_bit <==> bits & 8 != 0,
        !fired(true, held, firing, None).act_bit,
{
    law_own_trigger(bits);
}

} // verus!
