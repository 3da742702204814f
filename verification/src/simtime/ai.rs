//! AI actors: their state and their animation detail.

use vstd::prelude::*;

use super::objects::{NO_HANDLE, body_of, index_of, object_body};
use super::unit::BODY_AI_REF;
use crate::memory::{
    Bytes, Memory, elem, elem_addr, i16_at, i32_at, link, off, pattern32, store16, store32,
    triple_at, u16_at, u32_at, u8_at,
};

verus! {

pub const AI_TLS_SLOT: u64 = 0x28;

pub const AI_TABLE_OFF: u64 = 0x50;

pub const AI_ACTOR_STRIDE: u32 = 0xd10;

pub const AI_STATE: u64 = 0x32c; // i32, 0: the AI does not drive its unit

pub const AI_LOD: u64 = 0x89; // u8, 1: full detail, 3: limbs frozen

pub const AI_LOD_OVERRIDE: u64 = 0x88; // u8

pub const AI_GLOBALS_TLS_SLOT: u64 = 0x40;

pub const AI_FULL_DETAIL: u64 = 0x0a; // u16 number of actors in full detail

pub const OBSERVERS_TLS_SLOT: u64 = 0x188;

/// The AI actor of the unit: 0 if it has none.
pub open spec fn actor(m: Bytes, tls: u64, unit_handle: u32) -> u64 {
    let body = body_of(m, tls, unit_handle);
    if body == 0 || tls == 0 {
        0
    } else {
        match u32_at(m, off(body, BODY_AI_REF)) {
            None => 0,
            Some(ai_h) => if ai_h == NO_HANDLE {
                0
            } else {
                match link(m, off(tls, AI_TLS_SLOT)) {
                    None => 0,
                    Some(glob) => match link(m, off(glob, AI_TABLE_OFF)) {
                        None => 0,
                        Some(table) => elem(table, index_of(ai_h), AI_ACTOR_STRIDE as int),
                    },
                }
            },
        }
    }
}

/// Address of the state of the unit's AI: 0 if it has none.
pub open spec fn state_slot(m: Bytes, tls: u64, unit_handle: u32) -> u64 {
    if actor(m, tls, unit_handle) == 0 {
        0
    } else {
        off(actor(m, tls, unit_handle), AI_STATE)
    }
}

fn resolve_actor(m: &mut Memory, tls: u64, unit_handle: u32) -> (r: Option<u64>)
    ensures
        actor(old(m)@, tls, unit_handle) == match r {
            Some(a) => a,
            None => 0,
        },
        final(m)@ == old(m)@,
{
    let body = object_body(m, tls, unit_handle);
    if body == 0 || tls == 0 {
        return None;
    }
    let ai_h = m.read_u32(body.wrapping_add(BODY_AI_REF))?;
    if ai_h == NO_HANDLE {
        return None;
    }
    let glob = m.read_link(tls.wrapping_add(AI_TLS_SLOT))?;
    let table = m.read_link(glob.wrapping_add(AI_TABLE_OFF))?;
    Some(elem_addr(table, (ai_h % 0x1_0000) as u64, AI_ACTOR_STRIDE))
}

/// The AI actor of the unit (0 if it has none).
pub fn ai_actor_base(m: &mut Memory, tls: u64, unit_handle: u32) -> (r: u64)
    ensures
        r == actor(old(m)@, tls, unit_handle),
        final(m)@ == old(m)@,
{
    match resolve_actor(m, tls, unit_handle) {
        Some(a) => a,
        None => 0,
    }
}

/// Address of the state of the unit's AI (0 if it has none).
pub fn ai_actor_state_ptr(m: &mut Memory, tls: u64, unit_handle: u32) -> (r: u64)
    ensures
        r == state_slot(old(m)@, tls, unit_handle),
        final(m)@ == old(m)@,
{
    let base = ai_actor_base(m, tls, unit_handle);
    if base == 0 {
        return 0;
    }
    base.wrapping_add(AI_STATE)
}

/// The state of the unit's AI.
pub open spec fn state_of(m: Bytes, tls: u64, unit_handle: u32) -> Option<i32> {
    let a = state_slot(m, tls, unit_handle);
    if a == 0 {
        None
    } else {
        i32_at(m, a)
    }
}

/// Memory after the state of the unit's AI becomes `val`.
pub open spec fn state_set(m: Bytes, tls: u64, unit_handle: u32, val: i32) -> Bytes {
    let a = state_slot(m, tls, unit_handle);
    if a == 0 {
        m
    } else {
        store32(m, a, pattern32(val))
    }
}

/// The state of the unit's AI (`None` if it has none).
pub fn ai_state(m: &mut Memory, tls: u64, unit_handle: u32) -> (r: Option<i32>)
    ensures
        r == state_of(old(m)@, tls, unit_handle),
        final(m)@ == old(m)@,
{
    let a = ai_actor_state_ptr(m, tls, unit_handle);
    if a == 0 {
        return None;
    }
    m.read_i32(a)
}

/// Set the state of the unit's AI, and return the previous one. At 0 the AI no longer drives
/// the unit.
pub fn set_ai_state(m: &mut Memory, tls: u64, unit_handle: u32, val: i32) -> (r: Option<i32>)
    ensures
        r == state_of(old(m)@, tls, unit_handle),
        final(m)@ == state_set(old(m)@, tls, unit_handle, val),
{
    let a = ai_actor_state_ptr(m, tls, unit_handle);
    if a == 0 {
        return None;
    }
    let prev = m.read_i32(a)?;
    m.write_i32(a, val);
    Some(prev)
}

/// Putting back the AI state that a change returned restores memory, as long as the change did
/// not move the state.
pub proof fn law_ai_state_restored(m: Bytes, tls: u64, unit_handle: u32, val: i32)
    requires
        state_of(m, tls, unit_handle) is Some,
        state_slot(state_set(m, tls, unit_handle, val), tls, unit_handle) == state_slot(
            m,
            tls,
            unit_handle,
        ),
    ensures
        state_set(
            state_set(m, tls, unit_handle, val),
            tls,
            unit_handle,
            state_of(m, tls, unit_handle)->0,
        ) == m,
{
    let a = state_slot(m, tls, unit_handle);
    let w = u32_at(m, a)->0;
    crate::memory::lemma_put32_frame(m, a, pattern32(val));
    crate::memory::lemma_restore32(m, a, pattern32(val), w);
    assert(pattern32(state_of(m, tls, unit_handle)->0) == w);
}

/// The animation detail of the unit's AI and the override byte (`None` if it has no AI).
pub fn ai_lod(m: &mut Memory, tls: u64, unit_handle: u32) -> (r: Option<(u8, u8)>)
    ensures
        r == ({
            let a = actor(old(m)@, tls, unit_handle);
            match (u8_at(old(m)@, off(a, AI_LOD)), u8_at(old(m)@, off(a, AI_LOD_OVERRIDE))) {
                (Some(lod), Some(over)) if a != 0 => Some((lod, over)),
                _ => None,
            }
        }),
        final(m)@ == old(m)@,
{
    let base = ai_actor_base(m, tls, unit_handle);
    if base == 0 {
        return None;
    }
    let lod = m.read_u8(base.wrapping_add(AI_LOD))?;
    let over = m.read_u8(base.wrapping_add(AI_LOD_OVERRIDE))?;
    Some((lod, over))
}

/// The AI globals: `None` where they cannot be resolved.
pub open spec fn ai_globals(m: Bytes, tls: u64) -> Option<u64> {
    if tls == 0 {
        None
    } else {
        link(m, off(tls, AI_GLOBALS_TLS_SLOT))
    }
}

/// The number of actors animated in full detail.
pub open spec fn full_detail(m: Bytes, tls: u64) -> Option<u16> {
    match ai_globals(m, tls) {
        None => None,
        Some(g) => u16_at(m, off(g, AI_FULL_DETAIL)),
    }
}

/// Memory after the number of actors animated in full detail becomes `n`.
pub open spec fn full_detail_set(m: Bytes, tls: u64, n: u16) -> Bytes {
    match ai_globals(m, tls) {
        None => m,
        Some(g) => store16(m, off(g, AI_FULL_DETAIL), n),
    }
}

/// How many actors are animated in full detail.
pub fn ai_full_detail_count(m: &mut Memory, tls: u64) -> (r: Option<u16>)
    ensures
        r == full_detail(old(m)@, tls),
        final(m)@ == old(m)@,
{
    if tls == 0 {
        return None;
    }
    let g = m.read_link(tls.wrapping_add(AI_GLOBALS_TLS_SLOT))?;
    m.read_u16(g.wrapping_add(AI_FULL_DETAIL))
}

/// Change how many actors are animated in full detail, and return the previous number.
pub fn set_ai_full_detail_count(m: &mut Memory, tls: u64, n: u16) -> (r: Option<u16>)
    ensures
        r == full_detail(old(m)@, tls),
        final(m)@ == full_detail_set(old(m)@, tls, n),
{
    if tls == 0 {
        return None;
    }
    let g = m.read_link(tls.wrapping_add(AI_GLOBALS_TLS_SLOT))?;
    let a = g.wrapping_add(AI_FULL_DETAIL);
    let prev = m.read_u16(a)?;
    m.write_u16(a, n);
    Some(prev)
}

/// Putting back the number that a change returned restores memory, as long as the change did
/// not move the AI globals.
pub proof fn law_full_detail_restored(m: Bytes, tls: u64, n: u16)
    requires
        full_detail(m, tls) is Some,
        ai_globals(full_detail_set(m, tls, n), tls) == ai_globals(m, tls),
    ensures
        full_detail_set(full_detail_set(m, tls, n), tls, full_detail(m, tls)->0) == m,
{
    let a = off(ai_globals(m, tls)->0, AI_FULL_DETAIL);
    crate::memory::lemma_put16_frame(m, a, n);
    crate::memory::lemma_restore16(m, a, n, u16_at(m, a)->0);
}

/// The detail observers from record `i` on: player slot and position of each, up to the first
/// fault.
pub open spec fn observers_from(m: Bytes, arr: u64, i: int) -> Seq<(i16, [u32; 3])>
    decreases 8 - i,
{
    if i >= 8 {
        Seq::empty()
    } else {
        let rec = elem(arr, i, 0x3c);
        match (i16_at(m, rec), triple_at(m, off(rec, 0x28))) {
            (Some(slot), Some(p)) => seq![(slot, p)] + observers_from(m, arr, i + 1),
            _ => Seq::empty(),
        }
    }
}

/// The eight records of the detail observers: player slot, and the position that distances are
/// taken from. The list ends at the first fault.
pub fn ai_lod_observers(m: &mut Memory, tls: u64) -> (r: Vec<(i16, [u32; 3])>)
    ensures
        r@ == match link(old(m)@, off(tls, OBSERVERS_TLS_SLOT)) {
            Some(arr) if tls != 0 => observers_from(old(m)@, arr, 0),
            _ => Seq::empty(),
        },
        final(m)@ == old(m)@,
{
    let mut out: Vec<(i16, [u32; 3])> = Vec::new();
    if tls == 0 {
        return out;
    }
    let arr = match m.read_link(tls.wrapping_add(OBSERVERS_TLS_SLOT)) {
        None => return out,
        Some(a) => a,
    };
    let ghost all = observers_from(m@, arr, 0);
    let mut i: u64 = 0;
    assert(out@ + all =~= all);
    while i < 8
        invariant
            i <= 8,
            tls != 0,
            m@ == old(m)@,
            link(old(m)@, off(tls, OBSERVERS_TLS_SLOT)) == Some(arr),
            all == observers_from(m@, arr, 0),
            out@ + observers_from(m@, arr, i as int) == all,
        decreases 8 - i,
    {
        let rec = elem_addr(arr, i, 0x3c);
        let slot = m.read_i16(rec);
        let p = m.read_triple(rec.wrapping_add(0x28));
        match (slot, p) {
            (Some(slot), Some(p)) => {
                let ghost prior = out@;
                let ghost rest = observers_from(m@, arr, i + 1);
                out.push((slot, p));
                assert(prior + (seq![(slot, p)] + rest) =~= out@ + rest);
            },
            _ => {
                assert(out@ + Seq::<(i16, [u32; 3])>::empty() =~= out@);
                return out;
            },
        }
        i += 1;
    }
    assert(out@ + Seq::<(i16, [u32; 3])>::empty() =~= out@);
    out
}

/// The actor that drives a unit is found by the handle at 0x1ac of the unit's body, in a table of
/// entries of 0xd10 bytes; its state stands at 0x32c. A unit without a handle has no actor.
pub proof fn law_actor_of_unit(m: Bytes, tls: u64, unit_handle: u32, h: u32, glob: u64, table: u64)
    requires
        tls != 0,
        body_of(m, tls, unit_handle) != 0,
        u32_at(m, off(body_of(m, tls, unit_handle), 0x1ac)) == Some(h),
        link(m, off(tls, 0x28)) == Some(glob),
        link(m, off(glob, 0x50)) == Some(table),
    ensures
        h == 0xffff_ffff ==> state_slot(m, tls, unit_handle) == 0,
        h != 0xffff_ffff ==> actor(m, tls, unit_handle) == elem(table, h as int % 65536, 0xd10),
        h != 0xffff_ffff && elem(table, h as int % 65536, 0xd10) != 0 ==> state_slot(
            m,
            tls,
            unit_handle,
        ) == off(elem(table, h as int % 65536, 0xd10), 0x32c),
{
}

} // verus!
