//! Fields of unit bodies: team, owner, AI reference, animation, facing, velocity, position and
//! streaming cluster.

use vstd::prelude::*;

use super::objects::{
    BODY_POS, OBJ_RECORD_BODY, UNIT_RECORDS, body_of, mark_active, marked_active, object_body,
    object_table, record, record_addr, record_body, table_base,
};
use crate::ieee::{finite32, is_finite32};
use crate::memory::{
    Bytes, Memory, elem, elem_addr, i8_at, off, pattern16, pattern8, put16, put32, store16, store32,
    store_triple, triple_at, u16_at, u32_at, u8_at,
};
use crate::simunit::{
    REC_STRIDE, REC_VITALITY, VIT_ARRAY_OFF, VIT_ARRAY_SIZE, unit_body, valid_unit,
};

verus! {

pub const BODY_AI_REF: u64 = 0x1ac; // u32 handle of the AI, 0xffffffff for none

pub const BODY_TEAM: u64 = 0x1ba; // u16

pub const BODY_OWNER: u64 = 0x1bc; // i16 index of the owning player, -1 for none

/// The owner of a unit that no player owns.
pub const NO_OWNER: i16 = -1;

pub const BODY_FORWARD: u64 = 0x50; // 3 floats

pub const BODY_VELOCITY: u64 = 0x68; // 3 floats

pub const BODY_DESIRED_FACING: u64 = 0x1d4;

pub const BODY_DESIRED_AIMING: u64 = 0x1f8;

pub const BODY_DESIRED_LOOKING: u64 = 0x21c;

pub const BODY_CURRENT_AIM: u64 = 0x204;

pub const BODY_ANIM_FLAGS: u64 = 0xdc; // u32, bit 8: first-person animation

pub const BODY_ANIM_STATE: u64 = 0xe4; // u16

pub const ANIM_FIRST_PERSON: u32 = 0x100;

/// Memory after third-person animation is restored on the body `b`.
pub open spec fn tp_restored(m: Bytes, b: u64) -> Bytes {
    match u32_at(m, off(b, BODY_ANIM_FLAGS)) {
        None => m,
        Some(flags) => {
            let m1 = if flags & ANIM_FIRST_PERSON != 0 {
                put32(m, off(b, BODY_ANIM_FLAGS), flags & !ANIM_FIRST_PERSON)
            } else {
                m
            };
            if u16_at(m1, off(b, BODY_ANIM_STATE)) == Some(0x8000u16) {
                put16(m1, off(b, BODY_ANIM_STATE), 0xffff)
            } else {
                m1
            }
        },
    }
}

/// Restore third-person locomotion on an owned unit: clear the first-person flag, and turn the
/// animation state "none" into "select again". Both writes are made only where needed.
pub fn restore_tp_animation(m: &mut Memory, tls: u64, unit_handle: u32)
    ensures
        final(m)@ == ({
            let b = body_of(old(m)@, tls, unit_handle);
            if b == 0 {
                old(m)@
            } else {
                tp_restored(old(m)@, b)
            }
        }),
{
    let b = object_body(m, tls, unit_handle);
    if b == 0 {
        return;
    }
    if let Some(flags) = m.read_u32(b.wrapping_add(BODY_ANIM_FLAGS)) {
        if flags & ANIM_FIRST_PERSON != 0 {
            m.write_u32(b.wrapping_add(BODY_ANIM_FLAGS), flags & !ANIM_FIRST_PERSON);
        }
        if let Some(state) = m.read_u16(b.wrapping_add(BODY_ANIM_STATE)) {
            if state == 0x8000 {
                m.write_u16(b.wrapping_add(BODY_ANIM_STATE), 0xffff);
            }
        }
    }
}

/// Restoring third-person animation twice is the same as restoring it once.
pub proof fn law_tp_restore_idempotent(m: Bytes, b: u64)
    ensures
        tp_restored(tp_restored(m, b), b) == tp_restored(m, b),
{
    let fa = off(b, BODY_ANIM_FLAGS);
    let sa = off(b, BODY_ANIM_STATE);
    match u32_at(m, fa) {
        None => {},
        Some(flags) => {
            let cleared = flags & ANIM_FIRST_PERSON;
            assert((flags & !0x100u32) & 0x100u32 == 0) by (bit_vector);
            let m1 = if flags & ANIM_FIRST_PERSON != 0 {
                put32(m, fa, flags & !ANIM_FIRST_PERSON)
            } else {
                m
            };
            crate::memory::lemma_put32_frame(m, fa, flags & !ANIM_FIRST_PERSON);
            let m2 = put16(m1, sa, 0xffff);
            crate::memory::lemma_put16_frame(m1, sa, 0xffff);
            crate::memory::lemma_apart(fa, 4, sa, 2);
            crate::memory::lemma_agree32(m1, m2, fa);
        },
    }
}

/// The animation flags, the animation state and the field before them, for diagnosis.
pub fn anim_diag(m: &mut Memory, tls: u64, unit_handle: u32) -> (r: Option<(u32, u16, u32)>)
    ensures
        r == ({
            let b = body_of(old(m)@, tls, unit_handle);
            match (
                u32_at(old(m)@, off(b, BODY_ANIM_FLAGS)),
                u16_at(old(m)@, off(b, BODY_ANIM_STATE)),
                u32_at(old(m)@, off(b, 0xcc)),
            ) {
                (Some(flags), Some(state), Some(x)) if b != 0 => Some((flags, state, x)),
                _ => None,
            }
        }),
        final(m)@ == old(m)@,
{
    let b = object_body(m, tls, unit_handle);
    if b == 0 {
        return None;
    }
    let flags = m.read_u32(b.wrapping_add(BODY_ANIM_FLAGS))?;
    let state = m.read_u16(b.wrapping_add(BODY_ANIM_STATE))?;
    let x = m.read_u32(b.wrapping_add(0xcc))?;
    Some((flags, state, x))
}

/// The team word of the unit with the body `b`.
pub open spec fn team_of(m: Bytes, tls: u64, unit_handle: u32) -> Option<u16> {
    let b = body_of(m, tls, unit_handle);
    if b == 0 {
        None
    } else {
        u16_at(m, off(b, BODY_TEAM))
    }
}

/// The unit's team word: the team in its lower byte, the allegiance in its upper byte.
pub fn unit_team(m: &mut Memory, tls: u64, unit_handle: u32) -> (r: Option<u16>)
    ensures
        r == team_of(old(m)@, tls, unit_handle),
        final(m)@ == old(m)@,
{
    let b = object_body(m, tls, unit_handle);
    if b == 0 {
        return None;
    }
    m.read_u16(b.wrapping_add(BODY_TEAM))
}

/// Memory after the unit's team word becomes `team`.
pub open spec fn team_set(m: Bytes, tls: u64, unit_handle: u32, team: u16) -> Bytes {
    let b = body_of(m, tls, unit_handle);
    if b == 0 {
        m
    } else {
        store16(m, off(b, BODY_TEAM), team)
    }
}

/// Set the unit's team word.
pub fn set_unit_team(m: &mut Memory, tls: u64, unit_handle: u32, team: u16)
    ensures
        final(m)@ == team_set(old(m)@, tls, unit_handle, team),
{
    let b = object_body(m, tls, unit_handle);
    if b == 0 {
        return;
    }
    m.write_u16(b.wrapping_add(BODY_TEAM), team);
}

/// The handle of the unit's AI.
pub open spec fn ai_ref(m: Bytes, tls: u64, unit_handle: u32) -> Option<u32> {
    let b = body_of(m, tls, unit_handle);
    if b == 0 {
        None
    } else {
        u32_at(m, off(b, BODY_AI_REF))
    }
}

/// Memory after the handle of the unit's AI becomes `val`.
pub open spec fn ai_ref_set(m: Bytes, tls: u64, unit_handle: u32, val: u32) -> Bytes {
    let b = body_of(m, tls, unit_handle);
    if b == 0 {
        m
    } else {
        store32(m, off(b, BODY_AI_REF), val)
    }
}

/// Change the handle of the unit's AI, and return the previous one. The handle that names
/// nothing detaches the AI, so that it no longer turns the unit.
pub fn set_unit_ai_datum(m: &mut Memory, tls: u64, unit_handle: u32, val: u32) -> (r: Option<u32>)
    ensures
        r == ai_ref(old(m)@, tls, unit_handle),
        final(m)@ == ai_ref_set(old(m)@, tls, unit_handle, val),
{
    let b = object_body(m, tls, unit_handle);
    if b == 0 {
        return None;
    }
    let prev = m.read_u32(b.wrapping_add(BODY_AI_REF))?;
    m.write_u32(b.wrapping_add(BODY_AI_REF), val);
    Some(prev)
}

/// Detaching a unit's AI and putting back the handle that came back restores memory, as long as
/// the first write did not move the unit's body.
pub proof fn law_ai_ref_restored(m: Bytes, tls: u64, unit_handle: u32, val: u32)
    requires
        ai_ref(m, tls, unit_handle) is Some,
        body_of(ai_ref_set(m, tls, unit_handle, val), tls, unit_handle) == body_of(
            m,
            tls,
            unit_handle,
        ),
    ensures
        ai_ref_set(
            ai_ref_set(m, tls, unit_handle, val),
            tls,
            unit_handle,
            ai_ref(m, tls, unit_handle)->0,
        ) == m,
{
    let a = off(body_of(m, tls, unit_handle), BODY_AI_REF);
    crate::memory::lemma_put32_frame(m, a, val);
    crate::memory::lemma_restore32(m, a, val, u32_at(m, a)->0);
}

/// Memory after the unit's owner becomes `player_idx`.
pub open spec fn owner_set(m: Bytes, tls: u64, unit_handle: u32, player_idx: i16) -> Bytes {
    let b = body_of(m, tls, unit_handle);
    if b == 0 {
        m
    } else {
        store16(m, off(b, BODY_OWNER), pattern16(player_idx))
    }
}

/// Stamp the owning player's index into a unit, -1 for none.
pub fn set_unit_owner(m: &mut Memory, tls: u64, unit_handle: u32, player_idx: i16)
    ensures
        final(m)@ == owner_set(old(m)@, tls, unit_handle, player_idx),
{
    let b = object_body(m, tls, unit_handle);
    if b == 0 {
        return;
    }
    m.write_i16(b.wrapping_add(BODY_OWNER), player_idx);
}

/// Live forward, desired facing and current aim of a unit, for diagnosis.
pub fn body_facing_diag(m: &mut Memory, tls: u64, h: u32) -> (r: Option<
    ([u32; 3], [u32; 3], [u32; 3]),
>)
    ensures
        r == ({
            let b = body_of(old(m)@, tls, h);
            match (
                triple_at(old(m)@, off(b, BODY_FORWARD)),
                triple_at(old(m)@, off(b, BODY_DESIRED_FACING)),
                triple_at(old(m)@, off(b, BODY_CURRENT_AIM)),
            ) {
                (Some(f), Some(d), Some(a)) if b != 0 => Some((f, d, a)),
                _ => None,
            }
        }),
        final(m)@ == old(m)@,
{
    let b = object_body(m, tls, h);
    if b == 0 {
        return None;
    }
    let f = m.read_triple(b.wrapping_add(BODY_FORWARD))?;
    let d = m.read_triple(b.wrapping_add(BODY_DESIRED_FACING))?;
    let a = m.read_triple(b.wrapping_add(BODY_CURRENT_AIM))?;
    Some((f, d, a))
}

/// The unit's forward vector, where it is finite.
pub open spec fn forward_of(m: Bytes, tls: u64, unit_handle: u32) -> Option<[u32; 3]> {
    let b = body_of(m, tls, unit_handle);
    match triple_at(m, off(b, BODY_FORWARD)) {
        Some(f) if b != 0 && finite32(f[0]) && finite32(f[1]) && finite32(f[2]) => Some(f),
        _ => None,
    }
}

/// The unit's forward vector (`None` if it is not finite).
pub fn body_forward(m: &mut Memory, tls: u64, unit_handle: u32) -> (r: Option<[u32; 3]>)
    ensures
        r == forward_of(old(m)@, tls, unit_handle),
        final(m)@ == old(m)@,
{
    let b = object_body(m, tls, unit_handle);
    if b == 0 {
        return None;
    }
    let f = m.read_triple(b.wrapping_add(BODY_FORWARD))?;
    if is_finite32(f[0]) && is_finite32(f[1]) && is_finite32(f[2]) {
        Some(f)
    } else {
        None
    }
}

/// The same vector stored at several offsets of a body in turn, and whether all stores landed:
/// the first fault ends the row.
pub open spec fn triples_set(m: Bytes, b: u64, offs: Seq<u64>, v: [u32; 3]) -> (Bytes, bool)
    decreases offs.len(),
{
    if offs.len() == 0 {
        (m, true)
    } else {
        let p = triples_set(m, b, offs.drop_last(), v);
        if p.1 {
            store_triple(p.0, off(b, offs.last()), v)
        } else {
            p
        }
    }
}

/// The fields that steer a unit: desired facing, aiming and looking, then current aim.
pub open spec fn aim_offsets() -> Seq<u64> {
    seq![BODY_DESIRED_FACING, BODY_DESIRED_AIMING, BODY_DESIRED_LOOKING, BODY_CURRENT_AIM]
}

/// Memory after the unit with the body `b` is turned towards `fwd`.
pub open spec fn aimed(m: Bytes, table: u64, unit_handle: u32, b: u64, fwd: [u32; 3]) -> Bytes {
    let p = triples_set(m, b, aim_offsets(), fwd);
    if p.1 {
        marked_active(p.0, table, unit_handle)
    } else {
        p.0
    }
}

/// Turn a unit and aim its weapon towards `fwd`, through the fields that steer it, and mark it
/// for update. The live forward vector is never written. Nothing happens unless the body is
/// valid.
pub fn drive_unit_aim(m: &mut Memory, tls: u64, unit_handle: u32, fwd: [u32; 3])
    ensures
        final(m)@ == ({
            let b = body_of(old(m)@, tls, unit_handle);
            if unit_body(old(m)@, b) {
                aimed(old(m)@, table_base(old(m)@, tls), unit_handle, b, fwd)
            } else {
                old(m)@
            }
        }),
{
    let b = object_body(m, tls, unit_handle);
    if b == 0 || !valid_unit(m, b) {
        return;
    }
    let table = object_table(m, tls);
    proof {
        reveal_with_fuel(triples_set, 5);
        let a = aim_offsets();
        assert(a.drop_last() =~= seq![
            BODY_DESIRED_FACING,
            BODY_DESIRED_AIMING,
            BODY_DESIRED_LOOKING,
        ]);
        assert(a.drop_last().drop_last() =~= seq![BODY_DESIRED_FACING, BODY_DESIRED_AIMING]);
        assert(a.drop_last().drop_last().drop_last() =~= seq![BODY_DESIRED_FACING]);
        assert(a.drop_last().drop_last().drop_last().drop_last() =~= Seq::<u64>::empty());
    }
    if m.write_triple(b.wrapping_add(BODY_DESIRED_FACING), fwd) && m.write_triple(
        b.wrapping_add(BODY_DESIRED_AIMING),
        fwd,
    ) && m.write_triple(b.wrapping_add(BODY_DESIRED_LOOKING), fwd) && m.write_triple(
        b.wrapping_add(BODY_CURRENT_AIM),
        fwd,
    ) {
        mark_active(m, table, unit_handle);
    }
}

/// Memory after the unit with the body `b` is given a horizontal velocity.
pub open spec fn pushed(m: Bytes, table: u64, unit_handle: u32, b: u64, vx: u32, vy: u32) -> Bytes {
    if u32_at(m, off(b, BODY_VELOCITY)) is None {
        m
    } else {
        let m1 = put32(m, off(b, BODY_VELOCITY), vx);
        if u32_at(m1, off(off(b, BODY_VELOCITY), 4)) is None {
            m1
        } else {
            marked_active(put32(m1, off(off(b, BODY_VELOCITY), 4), vy), table, unit_handle)
        }
    }
}

/// Drive a unit's horizontal velocity and mark it for update. The vertical velocity is left to
/// the simulation. Nothing happens unless the body is valid.
pub fn drive_unit_velocity(m: &mut Memory, tls: u64, unit_handle: u32, vx: u32, vy: u32)
    ensures
        final(m)@ == ({
            let b = body_of(old(m)@, tls, unit_handle);
            if unit_body(old(m)@, b) {
                pushed(old(m)@, table_base(old(m)@, tls), unit_handle, b, vx, vy)
            } else {
                old(m)@
            }
        }),
{
    let b = object_body(m, tls, unit_handle);
    if b == 0 || !valid_unit(m, b) {
        return;
    }
    let table = object_table(m, tls);
    let p = b.wrapping_add(BODY_VELOCITY);
    if m.write_u32(p, vx) && m.write_u32(p.wrapping_add(4), vy) {
        mark_active(m, table, unit_handle);
    }
}

/// The unit's position.
pub open spec fn position_of(m: Bytes, tls: u64, unit_handle: u32) -> Option<[u32; 3]> {
    let b = body_of(m, tls, unit_handle);
    if b == 0 {
        None
    } else {
        triple_at(m, off(b, BODY_POS))
    }
}

/// The unit's position, in world units.
pub fn unit_pos(m: &mut Memory, tls: u64, unit_handle: u32) -> (r: Option<[u32; 3]>)
    ensures
        r == position_of(old(m)@, tls, unit_handle),
        final(m)@ == old(m)@,
{
    let b = object_body(m, tls, unit_handle);
    if b == 0 {
        return None;
    }
    m.read_triple(b.wrapping_add(BODY_POS))
}

/// The pattern that stands for a vitality that could not be read.
pub const NOT_A_NUMBER: u32 = 0x7fc0_0000;

/// The vitality in record `k` of the records at `recs`, which take `size` bytes: not-a-number for
/// a record that is absent or cannot be read.
pub open spec fn record_vitality(m: Bytes, recs: u64, size: u16, k: int) -> u32 {
    if (k + 1) * REC_STRIDE > size {
        NOT_A_NUMBER
    } else {
        match u32_at(m, off(elem(recs, k, REC_STRIDE as int), REC_VITALITY)) {
            None => NOT_A_NUMBER,
            Some(v) => v,
        }
    }
}

/// Vitality of body and shields, which are in the first two vitality records.
pub open spec fn vitality(m: Bytes, body: u64) -> (u32, u32) {
    match (u16_at(m, off(body, VIT_ARRAY_OFF)), u16_at(m, off(body, VIT_ARRAY_SIZE))) {
        (Some(o), Some(size)) => (
            record_vitality(m, off(body, o as u64), size, 0),
            record_vitality(m, off(body, o as u64), size, 1),
        ),
        _ => (NOT_A_NUMBER, NOT_A_NUMBER),
    }
}

fn read_record(m: &mut Memory, recs: u64, size: u16, k: u16) -> (r: u32)
    requires
        k < 2,
    ensures
        r == record_vitality(old(m)@, recs, size, k as int),
        final(m)@ == old(m)@,
{
    if (k as u32 + 1) * REC_STRIDE > size as u32 {
        return NOT_A_NUMBER;
    }
    match m.read_u32(elem_addr(recs, k as u64, REC_STRIDE).wrapping_add(REC_VITALITY)) {
        None => NOT_A_NUMBER,
        Some(v) => v,
    }
}

/// The vitality of a body and of its shields, from the first two vitality records. A record that
/// the body does not have is not-a-number.
pub fn body_vitality(m: &mut Memory, body: u64) -> (r: (u32, u32))
    ensures
        r == vitality(old(m)@, body),
        final(m)@ == old(m)@,
{
    let o = m.read_u16(body.wrapping_add(VIT_ARRAY_OFF));
    let size = m.read_u16(body.wrapping_add(VIT_ARRAY_SIZE));
    match (o, size) {
        (Some(o), Some(size)) => {
            let recs = body.wrapping_add(o as u64);
            let first = read_record(m, recs, size, 0);
            let second = read_record(m, recs, size, 1);
            (first, second)
        },
        _ => (NOT_A_NUMBER, NOT_A_NUMBER),
    }
}

/// Streaming cluster of a unit: BSP, cluster, and the flags of the object.
pub fn object_cluster(m: &mut Memory, tls: u64, handle: u32) -> (r: Option<(i8, u8, u32)>)
    ensures
        r == ({
            let b = body_of(old(m)@, tls, handle);
            match (
                i8_at(old(m)@, off(b, 0x8)),
                u8_at(old(m)@, off(b, 0x9)),
                u32_at(old(m)@, off(b, 0x4)),
            ) {
                (Some(bsp), Some(clu), Some(flags)) if b != 0 => Some((bsp, clu, flags)),
                _ => None,
            }
        }),
        final(m)@ == old(m)@,
{
    let b = object_body(m, tls, handle);
    if b == 0 {
        return None;
    }
    let bsp = m.read_i8(b.wrapping_add(0x8))?;
    let clu = m.read_u8(b.wrapping_add(0x9))?;
    let flags = m.read_u32(b.wrapping_add(0x4))?;
    Some((bsp, clu, flags))
}

/// A streaming cluster packed into a word: bit 31 marks it as set, bits 8 to 15 hold the BSP,
/// bits 0 to 7 the cluster.
pub open spec fn packed_cluster(bsp: i8, clu: u8) -> u32 {
    (0x8000_0000 + pattern8(bsp) * 0x100 + clu) as u32
}

/// The cluster of the unit with the body `b`, packed.
pub open spec fn cluster_of(m: Bytes, b: u64) -> Option<u32> {
    match (i8_at(m, off(b, 0x8)), u8_at(m, off(b, 0x9))) {
        (Some(bsp), Some(clu)) if bsp >= 0 => Some(packed_cluster(bsp, clu)),
        _ => None,
    }
}

/// One place is still kept for the cluster `own`.
pub open spec fn kept_place(x: Seq<u32>, own: Option<u32>) -> nat {
    if own is Some && !x.contains(own->0) {
        1
    } else {
        0
    }
}

/// `x` with `v` at its end, unless `v` is in it already. At most `max` are taken, and until `own`
/// is among them the last place is kept for it.
pub open spec fn added_once(x: Seq<u32>, v: u32, own: Option<u32>, max: nat) -> Seq<u32> {
    if x.contains(v) || (own != Some(v) && x.len() + kept_place(x, own) >= max) {
        x
    } else {
        x.push(v)
    }
}

/// The distinct clusters of the units that are near, in the order of the table, from record `i`
/// on, behind those found so far, at most `max` of them, with a place kept for `own`. The first
/// fault ends the search.
pub open spec fn clusters_from(
    m: Bytes,
    table: u64,
    near: Seq<bool>,
    max: nat,
    own: Option<u32>,
    i: int,
    found: Seq<u32>,
) -> Seq<u32>
    decreases UNIT_RECORDS - i,
{
    if i >= UNIT_RECORDS || found.len() >= max {
        found
    } else {
        match record_body(m, table, i) {
            None => found,
            Some(b) => if !unit_body(m, b) {
                clusters_from(m, table, near, max, own, i + 1, found)
            } else if triple_at(m, off(b, BODY_POS)) is None {
                found
            } else if !(i < near.len() && near[i]) {
                clusters_from(m, table, near, max, own, i + 1, found)
            } else {
                match i8_at(m, off(b, 0x8)) {
                    None => found,
                    Some(bsp) => if bsp < 0 {
                        clusters_from(m, table, near, max, own, i + 1, found)
                    } else {
                        match u8_at(m, off(b, 0x9)) {
                            None => found,
                            Some(clu) => clusters_from(
                                m,
                                table,
                                near,
                                max,
                                own,
                                i + 1,
                                added_once(found, packed_cluster(bsp, clu), own, max),
                            ),
                        }
                    },
                }
            },
        }
    }
}

/// The cluster of the unit at the center, which has a place among those found.
pub open spec fn own_cluster(m: Bytes, b: u64, max: nat) -> Option<u32> {
    if max > 0 && unit_body(m, b) {
        cluster_of(m, b)
    } else {
        None
    }
}

/// What was found, with `own` in the place that is still kept for it.
pub open spec fn completed(found: Seq<u32>, own: Option<u32>) -> Seq<u32> {
    if kept_place(found, own) == 1 {
        found.push(own->0)
    } else {
        found
    }
}

/// The outcome of [`collect_nearby_clusters`].
pub open spec fn nearby_clusters(
    m: Bytes,
    tls: u64,
    center_handle: u32,
    near: Seq<bool>,
    max: nat,
) -> Seq<u32> {
    let cb = body_of(m, tls, center_handle);
    if cb == 0 || table_base(m, tls) == 0 || triple_at(m, off(cb, BODY_POS)) is None {
        Seq::empty()
    } else {
        let own = own_cluster(m, cb, max);
        completed(
            clusters_from(m, table_base(m, tls), near, max, own, 0, Seq::empty()),
            own,
        )
    }
}

fn contains_word(v: &Vec<u32>, w: u32) -> (r: bool)
    ensures
        r == v@.contains(w),
{
    let mut i: usize = 0;
    while i < v.len()
        invariant
            i <= v.len(),
            forall|k: int| 0 <= k < i ==> v@[k] != w,
        decreases v.len() - i,
    {
        if v[i] == w {
            return true;
        }
        i += 1;
    }
    false
}

/// Search the table for the clusters of near units.
fn search_clusters(
    m: &mut Memory,
    table: u64,
    near: &Vec<bool>,
    max: usize,
    own: Option<u32>,
) -> (r: Vec<u32>)
    ensures
        r@ == clusters_from(old(m)@, table, near@, max as nat, own, 0, Seq::empty()),
        final(m)@ == old(m)@,
{
    let mut out: Vec<u32> = Vec::new();
    let ghost all = clusters_from(m@, table, near@, max as nat, own, 0, Seq::empty());
    let mut kept: usize = if own.is_some() {
        1
    } else {
        0
    };
    let mut i: u32 = 0;
    while i < UNIT_RECORDS && out.len() < max
        invariant
            i <= UNIT_RECORDS,
            m@ == old(m)@,
            kept == kept_place(out@, own),
            all == clusters_from(old(m)@, table, near@, max as nat, own, 0, Seq::empty()),
            clusters_from(m@, table, near@, max as nat, own, i as int, out@) == all,
        decreases UNIT_RECORDS - i,
    {
        let body = match m.read_u64(record_addr(table, i).wrapping_add(OBJ_RECORD_BODY)) {
            None => return out,
            Some(b) => b,
        };
        if valid_unit(m, body) {
            if m.read_triple(body.wrapping_add(BODY_POS)).is_none() {
                return out;
            }
            if (i as usize) < near.len() && near[i as usize] {
                let bsp = match m.read_i8(body.wrapping_add(0x8)) {
                    None => return out,
                    Some(b) => b,
                };
                if bsp >= 0 {
                    let clu = match m.read_u8(body.wrapping_add(0x9)) {
                        None => return out,
                        Some(c) => c,
                    };
                    let packed: u32 = 0x8000_0000 + bsp as u32 * 0x100 + clu as u32;
                    let is_own = match own {
                        Some(c) => c == packed,
                        None => false,
                    };
                    if !contains_word(&out, packed) && (is_own || max - out.len() > kept) {
                        let ghost prior = out@;
                        out.push(packed);
                        proof {
                            lemma_pushed(prior, packed, own);
                        }
                        if is_own {
                            kept = 0;
                        }
                    }
                }
            }
        }
        i += 1;
    }
    out
}

proof fn lemma_pushed(x: Seq<u32>, v: u32, own: Option<u32>)
    ensures
        kept_place(x.push(v), own) == if own == Some(v) {
            0
        } else {
            kept_place(x, own)
        },
{
    if let Some(c) = own {
        if c == v {
            assert(x.push(v)[x.len() as int] == c);
        }
        if x.contains(c) {
            let k = choose|k: int| 0 <= k < x.len() && x[k] == c;
            assert(x.push(v)[k] == c);
        }
        if x.push(v).contains(c) && c != v {
            let k = choose|k: int| 0 <= k < x.push(v).len() && x.push(v)[k] == c;
            assert(x[k] == c);
        }
    }
}

/// Collect up to `max` distinct streaming clusters, packed, of the units around the unit
/// `center_handle`, in the order of the table. One place is kept for the unit's own cluster, so
/// that it is always among them. `near` says by record index which units are no further from it
/// than the radius.
pub fn collect_nearby_clusters(
    m: &mut Memory,
    tls: u64,
    center_handle: u32,
    near: &Vec<bool>,
    max: usize,
) -> (r: Vec<u32>)
    ensures
        r@ == nearby_clusters(old(m)@, tls, center_handle, near@, max as nat),
        ({
            let cb = body_of(old(m)@, tls, center_handle);
            max > 0 && table_base(old(m)@, tls) != 0 && unit_body(old(m)@, cb) && triple_at(
                old(m)@,
                off(cb, BODY_POS),
            ) is Some && cluster_of(old(m)@, cb) is Some ==> r@.contains(
                cluster_of(old(m)@, cb)->0,
            )
        }),
        final(m)@ == old(m)@,
{
    let cb = object_body(m, tls, center_handle);
    if cb == 0 {
        return Vec::new();
    }
    let table = object_table(m, tls);
    if table == 0 {
        return Vec::new();
    }
    if m.read_triple(cb.wrapping_add(BODY_POS)).is_none() {
        return Vec::new();
    }
    let mut own: Option<u32> = None;
    if max > 0 && valid_unit(m, cb) {
        if let (Some(bsp), Some(clu)) = (
            m.read_i8(cb.wrapping_add(0x8)),
            m.read_u8(cb.wrapping_add(0x9)),
        ) {
            if bsp >= 0 {
                own = Some(0x8000_0000 + bsp as u32 * 0x100 + clu as u32);
            }
        }
    }
    assert(own == own_cluster(m@, cb, max as nat));
    let mut out = search_clusters(m, table, near, max, own);
    if let Some(c) = own {
        if !contains_word(&out, c) {
            let ghost prior = out@;
            out.push(c);
            assert(out@[prior.len() as int] == c);
        }
        assert(out@.contains(c));
    }
    out
}

/// A search keeps what it found so far in front, adds nothing twice, and keeps the place of `own`.
proof fn lemma_clusters(
    m: Bytes,
    table: u64,
    near: Seq<bool>,
    max: nat,
    own: Option<u32>,
    i: int,
    found: Seq<u32>,
)
    requires
        found.no_duplicates(),
        found.len() + kept_place(found, own) <= max,
    ensures
        ({
            let r = clusters_from(m, table, near, max, own, i, found);
            &&& r.no_duplicates()
            &&& r.len() + kept_place(r, own) <= max
        }),
    decreases UNIT_RECORDS - i,
{
    if i < UNIT_RECORDS && found.len() < max {
        lemma_clusters(m, table, near, max, own, i + 1, found);
        match record_body(m, table, i) {
            None => {},
            Some(b) => match (i8_at(m, off(b, 0x8)), u8_at(m, off(b, 0x9))) {
                (Some(bsp), Some(clu)) => {
                    let v = packed_cluster(bsp, clu);
                    lemma_pushed(found, v, own);
                    lemma_clusters(
                        m,
                        table,
                        near,
                        max,
                        own,
                        i + 1,
                        added_once(found, v, own, max),
                    );
                },
                _ => {},
            },
        }
    }
}

/// The collected clusters are distinct, and no more than were asked for.
pub proof fn law_clusters_distinct(
    m: Bytes,
    tls: u64,
    center_handle: u32,
    near: Seq<bool>,
    max: nat,
)
    ensures
        nearby_clusters(m, tls, center_handle, near, max).no_duplicates(),
        nearby_clusters(m, tls, center_handle, near, max).len() <= max,
{
    let cb = body_of(m, tls, center_handle);
    let own = own_cluster(m, cb, max);
    lemma_clusters(m, table_base(m, tls), near, max, own, 0, Seq::empty());
}

/// As long as the place that is kept makes no difference, the clusters are those of the near units
/// in the order of the table: where the search without a kept place comes to the unit's own
/// cluster, the search with one finds the same.
pub proof fn law_kept_place_keeps_order(
    m: Bytes,
    table: u64,
    near: Seq<bool>,
    max: nat,
    own: u32,
    i: int,
    found: Seq<u32>,
)
    requires
        0 <= i,
        found.len() <= max,
        clusters_from(m, table, near, max, None, i, found).contains(own),
    ensures
        clusters_from(m, table, near, max, Some(own), i, found) == clusters_from(
            m,
            table,
            near,
            max,
            None,
            i,
            found,
        ),
    decreases UNIT_RECORDS - i,
{
    if i < UNIT_RECORDS && found.len() < max {
        match record_body(m, table, i) {
            None => {},
            Some(b) => if !unit_body(m, b) {
                law_kept_place_keeps_order(m, table, near, max, own, i + 1, found);
            } else if triple_at(m, off(b, BODY_POS)) is Some {
                if !(i < near.len() && near[i]) {
                    law_kept_place_keeps_order(m, table, near, max, own, i + 1, found);
                } else if let Some(bsp) = i8_at(m, off(b, 0x8)) {
                    if bsp < 0 {
                        law_kept_place_keeps_order(m, table, near, max, own, i + 1, found);
                    } else if let Some(clu) = u8_at(m, off(b, 0x9)) {
                        let v = packed_cluster(bsp, clu);
                        let next = added_once(found, v, None, max);
                        if next != added_once(found, v, Some(own), max) {
                            // the last place would go to another cluster, and the search end there
                            assert(next.len() == max);
                            assert(clusters_from(m, table, near, max, None, i + 1, next) == next);
                            let k = choose|k: int| 0 <= k < next.len() && next[k] == own;
                            assert(found[k] == own);
                            assert(false);
                        }
                        law_kept_place_keeps_order(m, table, near, max, own, i + 1, next);
                    }
                }
            },
        }
    }
}

/// What the place for the streaming anchor is computed from.
pub struct AnchorInputs {
    /// Position of the unit to follow.
    pub follow: [u32; 3],
    /// Its velocity along x and y.
    pub velocity: (u32, u32),
    /// Where the anchor is now.
    pub anchor: [u32; 3],
}

/// The inputs for the anchor `anchor_h` that follows `follow_h`.
pub open spec fn anchor_sources(m: Bytes, tls: u64, anchor_h: u32, follow_h: u32) -> Option<
    AnchorInputs,
> {
    let ab = body_of(m, tls, anchor_h);
    let fb = body_of(m, tls, follow_h);
    if ab == 0 || fb == 0 {
        None
    } else {
        match (
            u32_at(m, off(fb, BODY_VELOCITY)),
            u32_at(m, off(off(fb, BODY_VELOCITY), 4)),
            triple_at(m, off(fb, BODY_POS)),
            triple_at(m, off(ab, BODY_POS)),
        ) {
            (Some(vx), Some(vy), Some(follow), Some(anchor)) => Some(
                AnchorInputs { follow, velocity: (vx, vy), anchor },
            ),
            _ => None,
        }
    }
}

/// Read what the anchor's new place is computed from.
pub fn anchor_inputs(m: &mut Memory, tls: u64, anchor_h: u32, follow_h: u32) -> (r: Option<
    AnchorInputs,
>)
    ensures
        r == anchor_sources(old(m)@, tls, anchor_h, follow_h),
        final(m)@ == old(m)@,
{
    let ab = object_body(m, tls, anchor_h);
    let fb = object_body(m, tls, follow_h);
    if ab == 0 || fb == 0 {
        return None;
    }
    let vx = m.read_u32(fb.wrapping_add(BODY_VELOCITY))?;
    let vy = m.read_u32(fb.wrapping_add(BODY_VELOCITY).wrapping_add(4))?;
    let follow = m.read_triple(fb.wrapping_add(BODY_POS))?;
    let anchor = m.read_triple(ab.wrapping_add(BODY_POS))?;
    Some(AnchorInputs { follow, velocity: (vx, vy), anchor })
}

/// Move the streaming anchor, the unit `anchor_h`, to `target`, so that the surroundings of the
/// unit `follow_h` stay active. `moved` is the distance from where the anchor is; it comes back
/// if the move was made.
pub fn anchor_biped_to(
    m: &mut Memory,
    tls: u64,
    anchor_h: u32,
    follow_h: u32,
    target: [u32; 3],
    moved: u32,
) -> (r: Option<u32>)
    ensures
        ({
            let s = store_triple(
                old(m)@,
                off(body_of(old(m)@, tls, anchor_h), BODY_POS),
                target,
            );
            if anchor_sources(old(m)@, tls, anchor_h, follow_h) is None {
                r is None && final(m)@ == old(m)@
            } else {
                final(m)@ == s.0 && r == if s.1 {
                    Some(moved)
                } else {
                    None
                }
            }
        }),
{
    if anchor_inputs(m, tls, anchor_h, follow_h).is_none() {
        return None;
    }
    let ab = object_body(m, tls, anchor_h);
    if m.write_triple(ab.wrapping_add(BODY_POS), target) {
        Some(moved)
    } else {
        None
    }
}

/// Giving a unit back its third-person animation clears the first-person bit, 0x100, of the flags
/// at 0xdc and keeps the other bits.
pub proof fn law_tp_flag(m: Bytes, b: u64, flags: u32)
    requires
        u32_at(m, off(b, 0xdc)) == Some(flags),
    ensures
        flags & 0x100 == 0 ==> u32_at(tp_restored(m, b), off(b, 0xdc)) == Some(flags),
        flags & 0x100 != 0 ==> u32_at(tp_restored(m, b), off(b, 0xdc)) == Some(flags & !0x100),
{
    let a = off(b, BODY_ANIM_FLAGS);
    let c = off(b, BODY_ANIM_STATE);
    crate::memory::lemma_put32_frame(m, a, flags & !ANIM_FIRST_PERSON);
    let m1 = if flags & ANIM_FIRST_PERSON != 0 {
        put32(m, a, flags & !ANIM_FIRST_PERSON)
    } else {
        m
    };
    crate::memory::lemma_put16_frame(m1, c, 0xffff);
    assert(crate::memory::apart(a, 4, c, 2));
    crate::memory::lemma_apart(a, 4, c, 2);
    crate::memory::lemma_agree32(put16(m1, c, 0xffff), m1, a);
}

/// A unit's vitality is that of its first two records: the body's and then the shield's, each 24
/// bytes long with the vitality at 16. A record that is not there has none.
pub proof fn law_vitality_records(m: Bytes, body: u64, o: u16, size: u16, b: u32, s: u32)
    requires
        u16_at(m, off(body, 0x176)) == Some(o),
        u16_at(m, off(body, 0x174)) == Some(size),
        u32_at(m, off(elem(off(body, o as u64), 0, 24), 16)) == Some(b),
        u32_at(m, off(elem(off(body, o as u64), 1, 24), 16)) == Some(s),
    ensures
        size >= 48 ==> vitality(m, body) == (b, s),
        24 <= size < 48 ==> vitality(m, body) == (b, 0x7fc0_0000u32),
        size < 24 ==> vitality(m, body) == (0x7fc0_0000u32, 0x7fc0_0000u32),
{
}

/// A cluster is packed as its number in the lowest byte, its structure's above, and the highest bit.
pub proof fn law_packed_parts(bsp: i8, clu: u8)
    requires
        0 <= bsp,
    ensures
        packed_cluster(bsp, clu) as int % 256 == clu,
        packed_cluster(bsp, clu) as int / 256 == 0x80_0000 + bsp,
{
}

/// The streaming anchor is placed by the unit that is followed, by its place at 0x44 and its
/// velocity at 0x68, and by the anchor's own place.
pub proof fn law_anchor_inputs(m: Bytes, tls: u64, anchor_h: u32, follow_h: u32)
    ensures
        anchor_sources(m, tls, anchor_h, follow_h) matches Some(i) ==> {
            let ab = body_of(m, tls, anchor_h);
            let fb = body_of(m, tls, follow_h);
            &&& triple_at(m, off(fb, 0x44)) == Some(i.follow)
            &&& triple_at(m, off(ab, 0x44)) == Some(i.anchor)
            &&& u32_at(m, off(fb, 0x68)) == Some(i.velocity.0)
            &&& u32_at(m, off(off(fb, 0x68), 4)) == Some(i.velocity.1)
        },
{
}

pub(crate) proof fn lemma_triple_stands(m: Bytes, a: u64, v: [u32; 3])
    requires
        store_triple(m, a, v).1,
    ensures
        triple_at(store_triple(m, a, v).0, a) matches Some(t) && t[0] == v[0] && t[1] == v[1] && t[2]
            == v[2],
        forall|x: u64|
            !crate::memory::inside(x, a, 12) ==> #[trigger] u8_at(store_triple(m, a, v).0, x)
                == u8_at(m, x),
{
    let b = off(a, 4);
    let c = off(a, 8);
    let m1 = put32(m, a, v[0]);
    let m2 = put32(m1, b, v[1]);
    let n = put32(m2, c, v[2]);
    crate::memory::lemma_put32_frame(m, a, v[0]);
    crate::memory::lemma_put32_frame(m1, b, v[1]);
    crate::memory::lemma_put32_frame(m2, c, v[2]);
    assert(crate::memory::apart(a, 4, b, 4) && crate::memory::apart(a, 4, c, 4)
        && crate::memory::apart(b, 4, c, 4));
    crate::memory::lemma_apart(a, 4, b, 4);
    crate::memory::lemma_apart(a, 4, c, 4);
    crate::memory::lemma_apart(b, 4, c, 4);
    crate::memory::lemma_agree32(m2, m1, a);
    crate::memory::lemma_agree32(n, m2, a);
    crate::memory::lemma_agree32(n, m2, b);
    assert forall|x: u64| !crate::memory::inside(x, a, 12) implies #[trigger] u8_at(n, x) == u8_at(
        m,
        x,
    ) by {
        assert(!crate::memory::inside(x, a, 4));
        assert(!crate::memory::inside(x, b, 4));
        assert(!crate::memory::inside(x, c, 4));
        assert(u8_at(m1, x) == u8_at(m, x));
        assert(u8_at(m2, x) == u8_at(m1, x));
    }
}

/// A vector that stands at `a` in `m` stands there in every memory that agrees on its bytes.
proof fn lemma_triple_kept(m: Bytes, n: Bytes, a: u64)
    requires
        forall|x: u64| #[trigger] crate::memory::inside(x, a, 12) ==> u8_at(n, x) == u8_at(m, x),
    ensures
        triple_at(n, a) == triple_at(m, a),
{
    assert forall|x: u64| #[trigger] crate::memory::inside(x, off(a, 4), 4) implies u8_at(n, x)
        == u8_at(m, x) by {
        assert(crate::memory::inside(x, a, 12));
    }
    assert forall|x: u64| #[trigger] crate::memory::inside(x, off(a, 8), 4) implies u8_at(n, x)
        == u8_at(m, x) by {
        assert(crate::memory::inside(x, a, 12));
    }
    assert forall|x: u64| #[trigger] crate::memory::inside(x, a, 4) implies u8_at(n, x) == u8_at(
        m,
        x,
    ) by {
        assert(crate::memory::inside(x, a, 12));
    }
    crate::memory::lemma_agree32(n, m, a);
    crate::memory::lemma_agree32(n, m, off(a, 4));
    crate::memory::lemma_agree32(n, m, off(a, 8));
}

proof fn lemma_triples_stand(m: Bytes, b: u64, offs: Seq<u64>, v: [u32; 3], k: int)
    requires
        triples_set(m, b, offs, v).1,
        0 <= k < offs.len(),
        forall|i: int, j: int|
            0 <= i < offs.len() && 0 <= j < offs.len() && i != j ==> crate::memory::apart(
                off(b, #[trigger] offs[i]),
                12,
                off(b, #[trigger] offs[j]),
                12,
            ),
    ensures
        triple_at(triples_set(m, b, offs, v).0, off(b, offs[k])) matches Some(t) && t[0] == v[0]
            && t[1] == v[1] && t[2] == v[2],
    decreases offs.len(),
{
    let init = offs.drop_last();
    let p = triples_set(m, b, init, v);
    let last = off(b, offs.last());
    lemma_triple_stands(p.0, last, v);
    if k < offs.len() - 1 {
        assert forall|i: int, j: int|
            0 <= i < init.len() && 0 <= j < init.len() && i != j implies crate::memory::apart(
            off(b, #[trigger] init[i]),
            12,
            off(b, #[trigger] init[j]),
            12,
        ) by {
            assert(init[i] == offs[i] && init[j] == offs[j]);
        }
        lemma_triples_stand(m, b, init, v, k);
        assert(offs[offs.len() - 1] == offs.last());
        assert(crate::memory::apart(off(b, offs[k]), 12, off(b, offs[offs.len() - 1]), 12));
        crate::memory::lemma_apart(off(b, offs[k]), 12, last, 12);
        lemma_triple_kept(p.0, triples_set(m, b, offs, v).0, off(b, offs[k]));
    }
}

/// Aiming a unit, where it can be written, leaves the direction in all four of its aim vectors, at
/// 0x1d4, 0x1f8, 0x21c and 0x204 of its body. Its record in the table lies elsewhere.
pub proof fn law_aim_stands(m: Bytes, table: u64, unit_handle: u32, b: u64, fwd: [u32; 3], o: u64)
    requires
        triples_set(m, b, aim_offsets(), fwd).1,
        o == 0x1d4 || o == 0x1f8 || o == 0x21c || o == 0x204,
        !crate::memory::inside(
            off(record(table, super::objects::index_of(unit_handle)), 2),
            off(b, o),
            12,
        ),
    ensures
        triple_at(aimed(m, table, unit_handle, b, fwd), off(b, o)) matches Some(t) && t[0] == fwd[0]
            && t[1] == fwd[1] && t[2] == fwd[2],
{
    let offs = aim_offsets();
    let p = triples_set(m, b, offs, fwd);
    assert forall|i: int, j: int| 0 <= i < 4 && 0 <= j < 4 && i != j implies crate::memory::apart(
        off(b, #[trigger] offs[i]),
        12,
        off(b, #[trigger] offs[j]),
        12,
    ) by {
    }
    let k: int = if o == 0x1d4 {
        0
    } else if o == 0x1f8 {
        1
    } else if o == 0x21c {
        2
    } else {
        3
    };
    lemma_triples_stand(m, b, offs, fwd, k);
    lemma_triple_kept(p.0, aimed(m, table, unit_handle, b, fwd), off(b, o));
}

/// Pushing a unit leaves its velocity along x at 0x68 and the one along y behind it. Its record in
/// the table lies elsewhere.
pub proof fn law_push_stands(m: Bytes, table: u64, unit_handle: u32, b: u64, vx: u32, vy: u32)
    requires
        u32_at(m, off(b, 0x68)) is Some,
        u32_at(m, off(off(b, 0x68), 4)) is Some,
        !crate::memory::inside(
            off(record(table, super::objects::index_of(unit_handle)), 2),
            off(b, 0x68),
            8,
        ),
    ensures
        u32_at(pushed(m, table, unit_handle, b, vx, vy), off(b, 0x68)) == Some(vx),
        u32_at(pushed(m, table, unit_handle, b, vx, vy), off(off(b, 0x68), 4)) == Some(vy),
{
    let a = off(b, BODY_VELOCITY);
    let c = off(a, 4);
    let m1 = put32(m, a, vx);
    let m2 = put32(m1, c, vy);
    let n = pushed(m, table, unit_handle, b, vx, vy);
    crate::memory::lemma_put32_frame(m, a, vx);
    assert(crate::memory::apart(a, 4, c, 4));
    crate::memory::lemma_apart(c, 4, a, 4);
    crate::memory::lemma_agree32(m1, m, c);
    crate::memory::lemma_put32_frame(m1, c, vy);
    crate::memory::lemma_apart(a, 4, c, 4);
    crate::memory::lemma_agree32(m2, m1, a);
    assert forall|x: u64| #[trigger] crate::memory::inside(x, a, 4) implies u8_at(n, x) == u8_at(
        m2,
        x,
    ) by {
        assert(crate::memory::inside(x, a, 8));
    }
    assert forall|x: u64| #[trigger] crate::memory::inside(x, c, 4) implies u8_at(n, x) == u8_at(
        m2,
        x,
    ) by {
        assert(crate::memory::inside(x, a, 8));
    }
    crate::memory::lemma_agree32(n, m2, a);
    crate::memory::lemma_agree32(n, m2, c);
}

/// The unit's own cluster is always among those around it, where the unit's place and the object
/// table can be read and there is room for one.
pub proof fn law_own_cluster_published(
    m: Bytes,
    tls: u64,
    center_handle: u32,
    near: Seq<bool>,
    max: nat,
    own: u32,
)
    requires
        max > 0,
        table_base(m, tls) != 0,
        triple_at(m, off(body_of(m, tls, center_handle), 0x44)) is Some,
        unit_body(m, body_of(m, tls, center_handle)),
        cluster_of(m, body_of(m, tls, center_handle)) == Some(own),
    ensures
        nearby_clusters(m, tls, center_handle, near, max).contains(own),
{
    let found = clusters_from(m, table_base(m, tls), near, max, Some(own), 0, Seq::empty());
    let all = completed(found, Some(own));
    if !found.contains(own) {
        assert(all[all.len() - 1] == own);
    }
}

/// Unit `j` of the table is near and stands in the cluster `v`.
pub open spec fn near_in(m: Bytes, table: u64, near: Seq<bool>, j: int, v: u32) -> bool {
    &&& 0 <= j < near.len() && near[j]
    &&& record_body(m, table, j) matches Some(b) && unit_body(m, b) && cluster_of(m, b) == Some(v)
}

proof fn lemma_clusters_near(
    m: Bytes,
    table: u64,
    near: Seq<bool>,
    max: nat,
    own: Option<u32>,
    i: int,
    found: Seq<u32>,
    v: u32,
)
    requires
        0 <= i,
        clusters_from(m, table, near, max, own, i, found).contains(v),
    ensures
        found.contains(v) || exists|j: int| i <= j < 2048 && #[trigger] near_in(m, table, near, j, v),
    decreases UNIT_RECORDS - i,
{
    if i < UNIT_RECORDS && found.len() < max {
        if let Some(b) = record_body(m, table, i) {
            let next = if unit_body(m, b) && i < near.len() && near[i] && cluster_of(m, b) is Some {
                added_once(found, cluster_of(m, b)->0, own, max)
            } else {
                found
            };
            if !unit_body(m, b) || (triple_at(m, off(b, BODY_POS)) is Some && (!(i < near.len()
                && near[i]) || (i8_at(m, off(b, 0x8)) is Some && (i8_at(m, off(b, 0x8))->0 < 0
                || u8_at(m, off(b, 0x9)) is Some)))) {
                lemma_clusters_near(m, table, near, max, own, i + 1, next, v);
                if next.contains(v) && !found.contains(v) {
                    let k = choose|k: int| 0 <= k < next.len() && next[k] == v;
                    if k < found.len() {
                        assert(found[k] == v);
                    }
                    assert(near_in(m, table, near, i, v));
                }
            }
        }
    }
}

/// Every cluster that is found around a unit is its own, or that of a unit of the table that is
/// near.
pub proof fn law_clusters_are_near(
    m: Bytes,
    tls: u64,
    center_handle: u32,
    near: Seq<bool>,
    max: nat,
    v: u32,
)
    requires
        nearby_clusters(m, tls, center_handle, near, max).contains(v),
    ensures
        cluster_of(m, body_of(m, tls, center_handle)) == Some(v) || exists|j: int|
            0 <= j < 2048 && #[trigger] near_in(m, table_base(m, tls), near, j, v),
{
    let cb = body_of(m, tls, center_handle);
    let own = own_cluster(m, cb, max);
    let found = clusters_from(m, table_base(m, tls), near, max, own, 0, Seq::empty());
    let all = completed(found, own);
    let k = choose|k: int| 0 <= k < all.len() && all[k] == v;
    if k < found.len() {
        assert(found[k] == v);
        lemma_clusters_near(
            m,
            table_base(m, tls),
            near,
            max,
            own,
            0,
            Seq::empty(),
            v,
        );
    }
}

} // verus!
