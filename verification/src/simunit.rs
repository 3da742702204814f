//! Direct writes to unit objects: invulnerability and kills.
//!
//! Invulnerability is the damage core's "cannot take damage" object flag. A kill zeroes a
//! unit's vitality records; with one-shot kills on, every enemy that has taken damage is killed.
//! A unit is validated before anything is written to it.

use vstd::prelude::*;

use crate::ieee::{ONE, less32, lt32};
use crate::memory::{
    Bytes, Memory, agree, apart, dist, elem, elem_addr, i16_at, inside, lemma_agree16, lemma_agree32,
    lemma_apart, lemma_put32_frame, off, put32, same_but, signed8, to_i8, u16_at, u32_at, u8_at,
};
use crate::simtime::objects::{
    OBJ_RECORD_BODY, UNIT_RECORDS, object_table, player_body, player_unit, record_addr,
    record_body, table_base,
};
use crate::simtime::player::{local_player_index, player_index, player_team_byte, team_byte};
use crate::simtime::unit::{BODY_OWNER, BODY_TEAM};

verus! {

pub const OBJ_FLAGS: u64 = 0x128; // u32 object flags

pub const FLAG_NO_DAMAGE: u32 = 0x80; // the damage core ignores all incoming damage

pub const VIT_ARRAY_SIZE: u64 = 0x174; // u16: size of the vitality records in bytes

pub const VIT_ARRAY_OFF: u64 = 0x176; // u16: offset from the body to the vitality records

pub const REC_STRIDE: u32 = 0x18;

pub const REC_VALID: u64 = 0x0e; // u16: 0xffff means unused

pub const REC_VITALITY: u64 = 0x10; // float, 0 to 1

/// `u` looks like the body of a unit: the size of its vitality records is a small multiple of
/// the record size, and not zero.
pub open spec fn unit_body(m: Bytes, u: u64) -> bool {
    u != 0 && match u16_at(m, off(u, VIT_ARRAY_SIZE)) {
        None => false,
        Some(size) => size != 0 && size % 0x18 == 0 && size < 0x1800,
    }
}

/// The object flags with the no-damage flag set or cleared.
pub open spec fn damage_flags(flags: u32, on: bool) -> u32 {
    if on {
        flags | FLAG_NO_DAMAGE
    } else {
        flags & !FLAG_NO_DAMAGE
    }
}

/// Memory after the no-damage flag of the body `u` is set or cleared.
pub open spec fn no_damage(m: Bytes, u: u64, on: bool) -> Bytes {
    match u32_at(m, off(u, OBJ_FLAGS)) {
        None => m,
        Some(flags) => put32(m, off(u, OBJ_FLAGS), damage_flags(flags, on)),
    }
}

/// Memory after the vitality records `i..n` at `recs` are zeroed: unused records are left
/// alone, and a fault ends the row.
pub open spec fn zeroed(m: Bytes, recs: u64, i: int, n: int) -> Bytes
    decreases n - i,
{
    let rec = elem(recs, i, REC_STRIDE as int);
    if i >= n {
        m
    } else {
        match u16_at(m, off(rec, REC_VALID)) {
            None => m,
            Some(v) => if v == 0xffff {
                zeroed(m, recs, i + 1, n)
            } else if u32_at(m, off(rec, REC_VITALITY)) is None {
                m
            } else {
                zeroed(put32(m, off(rec, REC_VITALITY), 0), recs, i + 1, n)
            },
        }
    }
}

/// Memory after the unit with the body `u` is killed.
pub open spec fn killed(m: Bytes, u: u64) -> Bytes {
    match (u16_at(m, off(u, VIT_ARRAY_OFF)), u16_at(m, off(u, VIT_ARRAY_SIZE))) {
        (Some(o), Some(size)) => zeroed(m, off(u, o as u64), 0, size as int / 0x18),
        _ => m,
    }
}

/// Whether `u` looks like the body of a unit. A stale pointer is no unit.
pub fn valid_unit(m: &mut Memory, u: u64) -> (r: bool)
    ensures
        r == unit_body(old(m)@, u),
        final(m)@ == old(m)@,
{
    if u == 0 {
        return false;
    }
    match m.read_u16(u.wrapping_add(VIT_ARRAY_SIZE)) {
        None => false,
        Some(size) => size != 0 && size % 0x18 == 0 && size < 0x1800,
    }
}

/// Set or clear the no-damage flag of a body.
pub fn write_no_damage(m: &mut Memory, u: u64, on: bool)
    ensures
        final(m)@ == no_damage(old(m)@, u, on),
{
    let a = u.wrapping_add(OBJ_FLAGS);
    if let Some(flags) = m.read_u32(a) {
        let v = if on {
            flags | FLAG_NO_DAMAGE
        } else {
            flags & !FLAG_NO_DAMAGE
        };
        m.write_u32(a, v);
    }
}

/// Zero every used vitality record of a body, which is lethal on the next tick.
pub fn kill_unit(m: &mut Memory, u: u64)
    ensures
        final(m)@ == killed(old(m)@, u),
{
    let o = m.read_u16(u.wrapping_add(VIT_ARRAY_OFF));
    let size = m.read_u16(u.wrapping_add(VIT_ARRAY_SIZE));
    if let (Some(o), Some(size)) = (o, size) {
        let recs = u.wrapping_add(o as u64);
        let n: u16 = size / 0x18;
        let mut i: u16 = 0;
        let ghost m0 = m@;
        while i < n
            invariant
                i <= n,
                zeroed(m0, recs, 0, n as int) == zeroed(m@, recs, i as int, n as int),
                killed(old(m)@, u) == zeroed(m0, recs, 0, n as int),
            decreases n - i,
        {
            let rec = elem_addr(recs, i as u64, REC_STRIDE);
            match m.read_u16(rec.wrapping_add(REC_VALID)) {
                None => return,
                Some(v) => if v != 0xffff {
                    if !m.write_u32(rec.wrapping_add(REC_VITALITY), 0) {
                        return;
                    }
                },
            }
            i += 1;
        }
    }
}

/// The cheats that are switched on.
#[derive(Clone, Copy)]
pub struct Cheats {
    pub invuln: bool,
    pub oneshot: bool,
    pub warned: bool,
}

impl Cheats {
    /// All cheats off.
    pub fn new() -> (r: Cheats)
        ensures
            r == (Cheats { invuln: false, oneshot: false, warned: false }),
    {
        Cheats { invuln: false, oneshot: false, warned: false }
    }
}

/// What came of a request to change invulnerability.
#[derive(Clone, Copy, PartialEq, Eq, Structural)]
pub enum Invuln {
    /// The flag was written.
    Applied,
    /// The player's unit is not resolved yet, and this is the first time.
    Pending,
    /// The player's unit is still not resolved.
    Silent,
}

/// What comes of a request to change invulnerability, and the cheats after it.
pub open spec fn invuln_asked(s: Cheats, valid: bool, on: bool) -> (Invuln, Cheats) {
    (
        if valid {
            Invuln::Applied
        } else if !s.warned {
            Invuln::Pending
        } else {
            Invuln::Silent
        },
        Cheats { invuln: on, warned: s.warned || !valid, ..s },
    )
}

/// Switch the player's invulnerability. The flag is written at once if the player's unit is
/// valid; [`tick`] writes it again every frame.
pub fn set_invuln(s: &mut Cheats, m: &mut Memory, tls: u64, on: bool) -> (r: Invuln)
    ensures
        ({
            let u = player_body(old(m)@, tls);
            let valid = unit_body(old(m)@, u);
            &&& (r, *final(s)) == invuln_asked(*old(s), valid, on)
            &&& final(m)@ == if valid {
                no_damage(old(m)@, u, on)
            } else {
                old(m)@
            }
        }),
{
    s.invuln = on;
    let u = player_unit(m, tls);
    if valid_unit(m, u) {
        write_no_damage(m, u, on);
        Invuln::Applied
    } else if !s.warned {
        s.warned = true;
        Invuln::Pending
    } else {
        Invuln::Silent
    }
}

/// Switch one-shot kills. The kills are made in [`tick`].
pub fn set_oneshot(s: &mut Cheats, on: bool)
    ensures
        *final(s) == (Cheats { oneshot: on, ..*old(s) }),
{
    s.oneshot = on;
}

/// Record `k` at `recs` is in use, and less than full.
pub open spec fn record_hurt(m: Bytes, recs: u64, k: int) -> bool {
    let rec = elem(recs, k, REC_STRIDE as int);
    match (u16_at(m, off(rec, REC_VALID)), u32_at(m, off(rec, REC_VITALITY))) {
        (Some(valid), Some(v)) => valid != 0xffff && less32(v, ONE),
        _ => false,
    }
}

/// One of the first `n` records at `recs` is in use, and less than full.
pub open spec fn any_hurt(m: Bytes, recs: u64, n: int) -> bool {
    exists|k: int| 0 <= k < n && #[trigger] record_hurt(m, recs, k)
}

/// The unit with the body `u` has taken damage: a vitality record in use is less than full.
pub open spec fn damaged(m: Bytes, u: u64) -> bool {
    match (u16_at(m, off(u, VIT_ARRAY_OFF)), u16_at(m, off(u, VIT_ARRAY_SIZE))) {
        (Some(o), Some(size)) => any_hurt(m, off(u, o as u64), size as int / 0x18),
        _ => false,
    }
}

/// The player's side: the body of the player's unit, the team that the player is seen as, and the
/// index by which the player owns units.
#[derive(Clone, Copy)]
pub struct Side {
    pub body: u64,
    pub team: i8,
    pub index: Option<i16>,
}

/// The unit with the body `b` is an enemy: it is neither on the player's team nor owned by the
/// player.
pub open spec fn enemy(m: Bytes, own: Side, b: u64) -> bool {
    match u16_at(m, off(b, BODY_TEAM)) {
        None => false,
        Some(w) => signed8((w % 0x100) as u8) != own.team && (own.index is None || i16_at(
            m,
            off(b, BODY_OWNER),
        ) != own.index),
    }
}

/// The body `b` is that of a unit to be finished off: a damaged enemy.
pub open spec fn doomed(m: Bytes, own: Side, b: u64) -> bool {
    b != own.body && unit_body(m, b) && enemy(m, own, b) && damaged(m, b)
}

/// Memory after the units in the table records from `i` on that are to be finished off are
/// killed. A fault in the table ends the walk.
pub open spec fn finished_from(m: Bytes, table: u64, own: Side, i: int) -> Bytes
    decreases UNIT_RECORDS - i,
{
    if i >= UNIT_RECORDS {
        m
    } else {
        match record_body(m, table, i) {
            None => m,
            Some(b) => finished_from(
                if doomed(m, own, b) {
                    killed(m, b)
                } else {
                    m
                },
                table,
                own,
                i + 1,
            ),
        }
    }
}

/// Memory after invulnerability is written again.
pub open spec fn shielded(s: Cheats, m: Bytes, player: u64) -> Bytes {
    if s.invuln && unit_body(m, player) {
        no_damage(m, player, true)
    } else {
        m
    }
}

/// The player's side, where the body of the player's unit is `player`: `None` without a unit or
/// where the team cannot be read.
pub open spec fn side(m: Bytes, tls: u64, player: u64) -> Option<Side> {
    match team_byte(m, tls) {
        Some(team) if player != 0 => Some(
            Side { body: player, team, index: player_index(m, tls) },
        ),
        _ => None,
    }
}

/// Memory after one-shot kills. They need the table, and the player's side, to leave it out.
pub open spec fn finished(s: Cheats, m: Bytes, tls: u64, player: u64) -> Bytes {
    match side(m, tls, player) {
        Some(own) if s.oneshot && table_base(m, tls) != 0 => finished_from(
            m,
            table_base(m, tls),
            own,
            0,
        ),
        _ => m,
    }
}

fn is_enemy(m: &mut Memory, own: Side, b: u64) -> (r: bool)
    ensures
        r == enemy(old(m)@, own, b),
        final(m)@ == old(m)@,
{
    let w = match m.read_u16(b.wrapping_add(BODY_TEAM)) {
        None => return false,
        Some(w) => w,
    };
    let owner = m.read_i16(b.wrapping_add(BODY_OWNER));
    let owned = match (own.index, owner) {
        (Some(index), Some(owner)) => index == owner,
        _ => false,
    };
    to_i8((w % 0x100) as u8) != own.team && !owned
}

fn is_damaged(m: &mut Memory, u: u64) -> (r: bool)
    ensures
        r == damaged(old(m)@, u),
        final(m)@ == old(m)@,
{
    let o = m.read_u16(u.wrapping_add(VIT_ARRAY_OFF));
    let size = m.read_u16(u.wrapping_add(VIT_ARRAY_SIZE));
    let (o, size) = match (o, size) {
        (Some(o), Some(size)) => (o, size),
        _ => return false,
    };
    let recs = u.wrapping_add(o as u64);
    let n: u16 = size / 0x18;
    let mut i: u16 = 0;
    while i < n
        invariant
            i <= n,
            m@ == old(m)@,
            n == size as int / 0x18,
            recs == off(u, o as u64),
            u16_at(old(m)@, off(u, VIT_ARRAY_OFF)) == Some(o),
            u16_at(old(m)@, off(u, VIT_ARRAY_SIZE)) == Some(size),
            forall|k: int| 0 <= k < i ==> !#[trigger] record_hurt(m@, recs, k),
        decreases n - i,
    {
        let rec = elem_addr(recs, i as u64, REC_STRIDE);
        let valid = m.read_u16(rec.wrapping_add(REC_VALID));
        let v = m.read_u32(rec.wrapping_add(REC_VITALITY));
        if let (Some(valid), Some(v)) = (valid, v) {
            if valid != 0xffff && lt32(v, ONE) {
                assert(record_hurt(old(m)@, recs, i as int));
                assert(any_hurt(old(m)@, recs, n as int));
                return true;
            }
        }
        i += 1;
    }
    false
}

/// Once per frame: write invulnerability again, so that the simulation cannot clear it, and with
/// one-shot kills on, finish off every enemy that has taken damage. Who dealt the damage is not
/// recorded in a unit's body, so any damage counts. A no-op while both cheats are off; without a
/// valid player's unit there is no invulnerability, and without any there are no kills.
pub fn tick(s: &Cheats, m: &mut Memory, tls: u64)
    ensures
        ({
            let player = player_body(old(m)@, tls);
            final(m)@ == finished(*s, shielded(*s, old(m)@, player), tls, player)
        }),
{
    if !s.invuln && !s.oneshot {
        return;
    }
    let u = player_unit(m, tls);
    if s.invuln && valid_unit(m, u) {
        write_no_damage(m, u, true);
    }
    if !s.oneshot || u == 0 {
        return;
    }
    let team = match player_team_byte(m, tls) {
        None => return,
        Some(team) => team,
    };
    let index = local_player_index(m, tls);
    let own = Side { body: u, team, index };
    let table = object_table(m, tls);
    if table == 0 {
        return;
    }
    let ghost all = finished_from(m@, table, own, 0);
    let mut i: u32 = 0;
    while i < UNIT_RECORDS
        invariant
            i <= UNIT_RECORDS,
            ({
                let player = player_body(old(m)@, tls);
                all == finished(*s, shielded(*s, old(m)@, player), tls, player)
            }),
            u == own.body,
            all == finished_from(m@, table, own, i as int),
        decreases UNIT_RECORDS - i,
    {
        let body = match m.read_u64(record_addr(table, i).wrapping_add(OBJ_RECORD_BODY)) {
            None => return,
            Some(b) => b,
        };
        if body != u && valid_unit(m, body) && is_enemy(m, own, body) && is_damaged(m, body) {
            kill_unit(m, body);
        }
        i += 1;
    }
}

/// Switching the no-damage flag changes bit 7 of the object flags and no other bit.
pub proof fn law_no_damage_bit(flags: u32, on: bool)
    ensures
        (damage_flags(flags, on) & 0x80 != 0) == on,
        damage_flags(flags, on) & !0x80 == flags & !0x80,
        damage_flags(damage_flags(flags, on), on) == damage_flags(flags, on),
{
    assert((flags | 0x80u32) & 0x80u32 != 0 && (flags & !0x80u32) & 0x80u32 == 0 && (flags
        | 0x80u32) & !0x80u32 == flags & !0x80u32 && (flags & !0x80u32) & !0x80u32 == flags
        & !0x80u32 && (flags | 0x80u32) | 0x80u32 == flags | 0x80u32) by (bit_vector);
}

/// Switching invulnerability touches the object flags of the player's unit and nothing else.
pub proof fn law_no_damage_frame(m: Bytes, u: u64, on: bool, x: u64)
    requires
        !inside(x, off(u, OBJ_FLAGS), 4),
    ensures
        u8_at(no_damage(m, u, on), x) == u8_at(m, x),
{
    match u32_at(m, off(u, OBJ_FLAGS)) {
        None => {},
        Some(flags) => {
            lemma_put32_frame(m, off(u, OBJ_FLAGS), damage_flags(flags, on));
        },
    }
}

/// Once a tick has written it, invulnerability stays written: a second tick with nothing in
/// between changes nothing.
pub proof fn law_no_damage_stable(m: Bytes, u: u64, on: bool)
    ensures
        no_damage(no_damage(m, u, on), u, on) == no_damage(m, u, on),
{
    match u32_at(m, off(u, OBJ_FLAGS)) {
        None => {},
        Some(flags) => {
            let v = damage_flags(flags, on);
            lemma_put32_frame(m, off(u, OBJ_FLAGS), v);
            law_no_damage_bit(flags, on);
            crate::memory::lemma_overwrite32(m, off(u, OBJ_FLAGS), v, v);
        },
    }
}

/// A kill changes nothing but vitality fields of the records it walks.
pub proof fn law_kill_frame(m: Bytes, recs: u64, i: int, n: int, x: u64)
    requires
        0 <= i,
        forall|k: int|
            i <= k < n ==> !inside(
                x,
                off(#[trigger] elem(recs, k, REC_STRIDE as int), REC_VITALITY),
                4,
            ),
    ensures
        u8_at(zeroed(m, recs, i, n), x) == u8_at(m, x),
    decreases n - i,
{
    if i < n {
        let rec = elem(recs, i, REC_STRIDE as int);
        match u16_at(m, off(rec, REC_VALID)) {
            None => {},
            Some(v) => {
                if v == 0xffff {
                    law_kill_frame(m, recs, i + 1, n, x);
                } else if u32_at(m, off(rec, REC_VITALITY)) is Some {
                    lemma_put32_frame(m, off(rec, REC_VITALITY), 0);
                    law_kill_frame(put32(m, off(rec, REC_VITALITY), 0), recs, i + 1, n, x);
                }
            },
        }
    }
}

/// The vitality records `0..n` at `recs` can be read.
pub open spec fn records_readable(m: Bytes, recs: u64, n: int) -> bool {
    forall|k: int|
        0 <= k < n ==> {
            &&& u16_at(m, off(#[trigger] elem(recs, k, REC_STRIDE as int), REC_VALID)) is Some
            &&& u32_at(m, off(elem(recs, k, REC_STRIDE as int), REC_VITALITY)) is Some
        }
}

proof fn lemma_records_apart(recs: u64, j: int, k: int)
    requires
        0 <= j < 0x100,
        0 <= k < 0x100,
    ensures
        ({
            let a = elem(recs, j, REC_STRIDE as int);
            let b = elem(recs, k, REC_STRIDE as int);
            &&& apart(off(b, REC_VALID), 2, off(a, REC_VITALITY), 4)
            &&& j != k ==> apart(off(b, REC_VITALITY), 4, off(a, REC_VITALITY), 4)
        }),
{
    let a = elem(recs, j, REC_STRIDE as int);
    let b = elem(recs, k, REC_STRIDE as int);
    lemma_within(recs, j, REC_VITALITY);
    lemma_within(recs, k, REC_VITALITY);
    lemma_within(recs, k, REC_VALID);
    assert(dist(recs, off(a, REC_VITALITY)) == j * 24 + 16);
    assert(dist(recs, off(b, REC_VITALITY)) == k * 24 + 16);
    assert(dist(recs, off(b, REC_VALID)) == k * 24 + 14);
    if j < k {
        assert(j * 24 + 24 <= k * 24);
        lemma_apart_within(recs, off(a, REC_VITALITY), 4, off(b, REC_VALID), 2);
        lemma_apart_within(recs, off(a, REC_VITALITY), 4, off(b, REC_VITALITY), 4);
    } else {
        lemma_apart_within(recs, off(b, REC_VALID), 2, off(a, REC_VITALITY), 4);
        if k < j {
            lemma_apart_within(recs, off(b, REC_VITALITY), 4, off(a, REC_VITALITY), 4);
        }
    }
}

/// How far a field of a record is from the start of the records.
proof fn lemma_within(recs: u64, k: int, o: u64)
    requires
        0 <= k < 0x100,
        o <= 0x18,
    ensures
        dist(recs, off(elem(recs, k, REC_STRIDE as int), o)) == k * 0x18 + o,
{
    assert(0 <= k * 0x18 <= 0x1800);
    assert(dist(recs, elem(recs, k, 0x18)) == k * 0x18);
}

/// Windows one behind the other, near the same start, are apart.
proof fn lemma_apart_within(base: u64, a: u64, n: int, b: u64, k: int)
    requires
        0 < n,
        0 < k,
        dist(base, a) + n <= dist(base, b),
        dist(base, b) + k <= 0x1_0000_0000,
    ensures
        apart(a, n, b, k),
        apart(b, k, a, n),
{
}

/// Zeroing a row of records keeps which ones are in use, zeroes those in use, and leaves the
/// others alone.
proof fn lemma_zeroed(m: Bytes, recs: u64, i: int, n: int, k: int)
    requires
        0 <= i,
        n <= 0x100,
        0 <= k < n,
        records_readable(m, recs, n),
    ensures
        ({
            let z = zeroed(m, recs, i, n);
            let rec = elem(recs, k, REC_STRIDE as int);
            let valid = off(rec, REC_VALID);
            let vit = off(rec, REC_VITALITY);
            &&& u16_at(z, valid) == u16_at(m, valid)
            &&& u32_at(z, vit) == if i <= k && u16_at(m, valid) != Some(0xffffu16) {
                Some(0u32)
            } else {
                u32_at(m, vit)
            }
        }),
    decreases n - i,
{
    if i < n {
        let at = off(elem(recs, i, REC_STRIDE as int), REC_VITALITY);
        if u16_at(m, off(elem(recs, i, REC_STRIDE as int), REC_VALID)) == Some(0xffffu16) {
            lemma_zeroed(m, recs, i + 1, n, k);
        } else {
            let m1 = put32(m, at, 0);
            lemma_put32_frame(m, at, 0);
            assert forall|j: int| 0 <= j < n implies {
                let rec = #[trigger] elem(recs, j, REC_STRIDE as int);
                &&& u16_at(m1, off(rec, REC_VALID)) == u16_at(m, off(rec, REC_VALID))
                &&& u32_at(m1, off(rec, REC_VITALITY)) == if j == i {
                    Some(0u32)
                } else {
                    u32_at(m, off(rec, REC_VITALITY))
                }
            } by {
                let rec = elem(recs, j, REC_STRIDE as int);
                lemma_records_apart(recs, i, j);
                lemma_apart(off(rec, REC_VALID), 2, at, 4);
                lemma_agree16(m1, m, off(rec, REC_VALID));
                if j != i {
                    lemma_apart(off(rec, REC_VITALITY), 4, at, 4);
                    lemma_agree32(m1, m, off(rec, REC_VITALITY));
                }
            }
            lemma_zeroed(m1, recs, i + 1, n, k);
        }
    }
}

/// A kill zeroes every vitality record of the unit that is in use, and leaves those that are not
/// in use alone, where the records can be read.
pub proof fn law_kill_zeroes(m: Bytes, u: u64, o: u16, size: u16, k: int)
    requires
        unit_body(m, u),
        u16_at(m, off(u, VIT_ARRAY_OFF)) == Some(o),
        u16_at(m, off(u, VIT_ARRAY_SIZE)) == Some(size),
        records_readable(m, off(u, o as u64), size as int / 0x18),
        0 <= k < size as int / 0x18,
    ensures
        ({
            let rec = elem(off(u, o as u64), k, REC_STRIDE as int);
            u32_at(killed(m, u), off(rec, REC_VITALITY)) == if u16_at(m, off(rec, REC_VALID))
                != Some(0xffffu16) {
                Some(0u32)
            } else {
                u32_at(m, off(rec, REC_VITALITY))
            }
        }),
{
    lemma_zeroed(m, off(u, o as u64), 0, size as int / 0x18, k);
}

/// `x` is in a vitality field of one of the first `n` records at `recs`.
pub open spec fn in_vitality(recs: u64, n: int, x: u64) -> bool {
    exists|k: int|
        0 <= k < n && inside(x, off(#[trigger] elem(recs, k, REC_STRIDE as int), REC_VITALITY), 4)
}

/// The vitality fields of the unit with the body `b`.
pub open spec fn vitality_fields(m: Bytes, b: u64) -> Set<u64> {
    match (u16_at(m, off(b, VIT_ARRAY_OFF)), u16_at(m, off(b, VIT_ARRAY_SIZE))) {
        (Some(o), Some(size)) => Set::new(
            |x: u64| in_vitality(off(b, o as u64), size as int / 0x18, x),
        ),
        _ => Set::empty(),
    }
}

/// A record of the object table holds the body `b`.
pub open spec fn in_table(m: Bytes, table: u64, b: u64) -> bool {
    exists|j: int| 0 <= j < UNIT_RECORDS && #[trigger] record_body(m, table, j) == Some(b)
}

/// The vitality fields of all enemies in the table.
pub open spec fn kill_room(m: Bytes, table: u64, own: Side) -> Set<u64> {
    Set::new(
        |x: u64|
            exists|b: u64| #[trigger]
                in_table(m, table, b) && b != own.body && enemy(m, own, b) && vitality_fields(
                    m,
                    b,
                ).contains(x),
    )
}

/// Whatever those fields hold, the table, who is an enemy and the places of the vitality records
/// are the same.
pub open spec fn steady(m: Bytes, table: u64, own: Side) -> bool {
    forall|n: Bytes| #[trigger]
        same_but(m, n, kill_room(m, table, own)) ==> {
            &&& forall|j: int|
                0 <= j < UNIT_RECORDS ==> #[trigger] record_body(n, table, j) == record_body(
                    m,
                    table,
                    j,
                )
            &&& forall|b: u64| #[trigger]
                in_table(m, table, b) ==> {
                    &&& enemy(n, own, b) == enemy(m, own, b)
                    &&& u16_at(n, off(b, VIT_ARRAY_OFF)) == u16_at(m, off(b, VIT_ARRAY_OFF))
                    &&& u16_at(n, off(b, VIT_ARRAY_SIZE)) == u16_at(m, off(b, VIT_ARRAY_SIZE))
                }
        }
}

proof fn lemma_zeroed_cells(m: Bytes, recs: u64, i: int, n: int)
    requires
        0 <= i,
    ensures
        zeroed(m, recs, i, n).dom() == m.dom(),
    decreases n - i,
{
    if i < n {
        let rec = elem(recs, i, REC_STRIDE as int);
        match u16_at(m, off(rec, REC_VALID)) {
            None => {},
            Some(v) => {
                if v == 0xffff {
                    lemma_zeroed_cells(m, recs, i + 1, n);
                } else if u32_at(m, off(rec, REC_VITALITY)) is Some {
                    let m1 = put32(m, off(rec, REC_VITALITY), 0);
                    assert(m1.dom() =~= m.dom()) by {
                        reveal(put32);
                        reveal(crate::memory::put16);
                        reveal(u32_at);
                        reveal(u16_at);
                    }
                    lemma_zeroed_cells(m1, recs, i + 1, n);
                }
            },
        }
    }
}

/// A kill writes the unit's vitality fields alone.
proof fn lemma_killed_frame(m: Bytes, b: u64)
    ensures
        same_but(m, killed(m, b), vitality_fields(m, b)),
{
    match (u16_at(m, off(b, VIT_ARRAY_OFF)), u16_at(m, off(b, VIT_ARRAY_SIZE))) {
        (Some(o), Some(size)) => {
            let recs = off(b, o as u64);
            let n = size as int / 0x18;
            lemma_zeroed_cells(m, recs, 0, n);
            assert forall|x: u64| !vitality_fields(m, b).contains(x) implies #[trigger] u8_at(
                killed(m, b),
                x,
            ) == u8_at(m, x) by {
                assert(!in_vitality(recs, n, x));
                law_kill_frame(m, recs, 0, n, x);
            }
        },
        _ => {},
    }
}

/// One step of the walk stays within the room for kills.
proof fn lemma_strike(m: Bytes, n: Bytes, table: u64, own: Side, b: u64)
    requires
        steady(m, table, own),
        same_but(m, n, kill_room(m, table, own)),
        in_table(m, table, b),
        b != own.body,
        enemy(m, own, b),
    ensures
        same_but(m, killed(n, b), kill_room(m, table, own)),
        same_but(n, killed(n, b), vitality_fields(m, b)),
{
    lemma_killed_frame(n, b);
    assert(vitality_fields(n, b) =~= vitality_fields(m, b));
    let w = kill_room(m, table, own);
    assert forall|x: u64| !w.contains(x) implies #[trigger] u8_at(killed(n, b), x) == u8_at(m, x) by {
        assert(!vitality_fields(m, b).contains(x));
        assert(u8_at(n, x) == u8_at(m, x));
    }
}

proof fn lemma_finish_frame(m: Bytes, n: Bytes, table: u64, own: Side, i: int)
    requires
        steady(m, table, own),
        same_but(m, n, kill_room(m, table, own)),
        0 <= i,
    ensures
        same_but(m, finished_from(n, table, own, i), kill_room(m, table, own)),
    decreases UNIT_RECORDS - i,
{
    if i < UNIT_RECORDS {
        assert(record_body(n, table, i) == record_body(m, table, i));
        if let Some(b) = record_body(n, table, i) {
            if doomed(n, own, b) {
                assert(in_table(m, table, b));
                lemma_strike(m, n, table, own, b);
                lemma_finish_frame(m, killed(n, b), table, own, i + 1);
            } else {
                lemma_finish_frame(m, n, table, own, i + 1);
            }
        }
    }
}

/// One-shot kills write vitality fields of enemies, and nothing else: the player's own unit, its
/// allies, and everything that is no vitality keep what they hold.
pub proof fn law_one_shot_frame(m: Bytes, table: u64, own: Side)
    requires
        steady(m, table, own),
    ensures
        same_but(m, finished_from(m, table, own, 0), kill_room(m, table, own)),
{
    lemma_finish_frame(m, m, table, own, 0);
}

/// The records that `m` has in use at `recs` are zero in `n`, and the others are as in `m`.
pub open spec fn dead(m: Bytes, n: Bytes, recs: u64, count: int) -> bool {
    forall|k: int|
        0 <= k < count ==> {
            let rec = #[trigger] elem(recs, k, REC_STRIDE as int);
            let valid = off(rec, REC_VALID);
            let vit = off(rec, REC_VITALITY);
            &&& u16_at(n, valid) == u16_at(m, valid)
            &&& u32_at(n, vit) == if u16_at(m, valid) != Some(0xffffu16) {
                Some(0u32)
            } else {
                u32_at(m, vit)
            }
        }
}

/// Memories that agree on a row of records agree on their fields.
proof fn lemma_same_records(m: Bytes, n: Bytes, recs: u64, count: int)
    requires
        count <= 0x100,
        agree(n, m, recs, count * REC_STRIDE),
    ensures
        forall|k: int|
            0 <= k < count ==> {
                let rec = #[trigger] elem(recs, k, REC_STRIDE as int);
                &&& u16_at(n, off(rec, REC_VALID)) == u16_at(m, off(rec, REC_VALID))
                &&& u32_at(n, off(rec, REC_VITALITY)) == u32_at(m, off(rec, REC_VITALITY))
            },
{
    assert forall|k: int| 0 <= k < count implies {
        let rec = #[trigger] elem(recs, k, REC_STRIDE as int);
        &&& u16_at(n, off(rec, REC_VALID)) == u16_at(m, off(rec, REC_VALID))
        &&& u32_at(n, off(rec, REC_VITALITY)) == u32_at(m, off(rec, REC_VITALITY))
    } by {
        let rec = elem(recs, k, REC_STRIDE as int);
        assert forall|x: u64| #[trigger] inside(x, off(rec, REC_VALID), 2) implies u8_at(n, x)
            == u8_at(m, x) by {
            assert(inside(x, recs, count * REC_STRIDE));
        }
        assert forall|x: u64| #[trigger] inside(x, off(rec, REC_VITALITY), 4) implies u8_at(n, x)
            == u8_at(m, x) by {
            assert(inside(x, recs, count * REC_STRIDE));
        }
        lemma_agree16(n, m, off(rec, REC_VALID));
        lemma_agree32(n, m, off(rec, REC_VITALITY));
    }
}

/// The records of the unit `e` lie outside the vitality fields of all other units in the table.
pub open spec fn own_records(m: Bytes, table: u64, e: u64, recs: u64, count: int) -> bool {
    forall|b: u64, x: u64|
        #![trigger in_table(m, table, b), vitality_fields(m, b).contains(x)]
        in_table(m, table, b) && b != e && vitality_fields(m, b).contains(x) ==> !inside(
            x,
            recs,
            count * REC_STRIDE,
        )
}

proof fn lemma_dies(
    m: Bytes,
    n: Bytes,
    table: u64,
    own: Side,
    i: int,
    at: int,
    e: u64,
    o: u16,
    size: u16,
)
    requires
        steady(m, table, own),
        same_but(m, n, kill_room(m, table, own)),
        0 <= i,
        0 <= at < UNIT_RECORDS,
        forall|j: int| 0 <= j < UNIT_RECORDS ==> #[trigger] record_body(m, table, j) is Some,
        record_body(m, table, at) == Some(e),
        doomed(m, own, e),
        u16_at(m, off(e, VIT_ARRAY_OFF)) == Some(o),
        u16_at(m, off(e, VIT_ARRAY_SIZE)) == Some(size),
        records_readable(m, off(e, o as u64), size as int / 0x18),
        own_records(m, table, e, off(e, o as u64), size as int / 0x18),
        ({
            ||| i <= at && agree(n, m, off(e, o as u64), (size as int / 0x18) * REC_STRIDE)
            ||| dead(m, n, off(e, o as u64), size as int / 0x18)
        }),
    ensures
        dead(
            m,
            finished_from(n, table, own, i),
            off(e, o as u64),
            size as int / 0x18,
        ),
    decreases UNIT_RECORDS - i,
{
    let recs = off(e, o as u64);
    let count = size as int / 0x18;
    if i < UNIT_RECORDS {
        assert(record_body(n, table, i) == record_body(m, table, i));
        let b = record_body(m, table, i)->0;
        assert(in_table(m, table, b));
        let n1 = if doomed(n, own, b) {
            killed(n, b)
        } else {
            n
        };
        if doomed(n, own, b) {
            lemma_strike(m, n, table, own, b);
        }
        let untouched = agree(n, m, recs, count * REC_STRIDE);
        if b == e {
            if untouched {
                lemma_same_records(m, n, recs, count);
                let k = choose|k: int| 0 <= k < count && record_hurt(m, recs, k);
                assert(record_hurt(n, recs, k));
                assert(any_hurt(n, recs, count));
                assert(doomed(n, own, e));
            }
            if doomed(n, own, e) {
                assert(records_readable(n, recs, count));
                assert forall|k: int| 0 <= k < count implies {
                    let rec = #[trigger] elem(recs, k, REC_STRIDE as int);
                    let valid = off(rec, REC_VALID);
                    let vit = off(rec, REC_VITALITY);
                    &&& u16_at(n1, valid) == u16_at(m, valid)
                    &&& u32_at(n1, vit) == if u16_at(m, valid) != Some(0xffffu16) {
                        Some(0u32)
                    } else {
                        u32_at(m, vit)
                    }
                } by {
                    lemma_zeroed(n, recs, 0, count, k);
                }
            }
            assert(dead(m, n1, recs, count));
        } else {
            assert(agree(n1, n, recs, count * REC_STRIDE)) by {
                assert forall|x: u64| #[trigger] inside(x, recs, count * REC_STRIDE) implies u8_at(
                    n1,
                    x,
                ) == u8_at(n, x) by {
                    assert(!vitality_fields(m, b).contains(x));
                }
            }
            lemma_same_records(n, n1, recs, count);
            if !untouched {
                assert(dead(m, n1, recs, count));
            } else {
                assert(agree(n1, m, recs, count * REC_STRIDE)) by {
                    assert forall|x: u64| #[trigger] inside(
                        x,
                        recs,
                        count * REC_STRIDE,
                    ) implies u8_at(n1, x) == u8_at(m, x) by {
                        assert(u8_at(n, x) == u8_at(m, x));
                    }
                }
                if !(i + 1 <= at) {
                    assert(dead(m, n1, recs, count));
                }
            }
        }
        lemma_dies(m, n1, table, own, i + 1, at, e, o, size);
    }
}

/// With one-shot kills on, a damaged enemy that stands in a record of the
/// table is dead after the tick: each of its vitality records in use is zero, and those not in
/// use are as they were. The table and the unit's records can be read, and units do not share
/// records.
pub proof fn law_damaged_unit_dies(
    m: Bytes,
    table: u64,
    own: Side,
    at: int,
    e: u64,
    o: u16,
    size: u16,
)
    requires
        steady(m, table, own),
        0 <= at < UNIT_RECORDS,
        forall|j: int| 0 <= j < UNIT_RECORDS ==> #[trigger] record_body(m, table, j) is Some,
        record_body(m, table, at) == Some(e),
        doomed(m, own, e),
        u16_at(m, off(e, VIT_ARRAY_OFF)) == Some(o),
        u16_at(m, off(e, VIT_ARRAY_SIZE)) == Some(size),
        records_readable(m, off(e, o as u64), size as int / 0x18),
        own_records(m, table, e, off(e, o as u64), size as int / 0x18),
    ensures
        dead(
            m,
            finished_from(m, table, own, 0),
            off(e, o as u64),
            size as int / 0x18,
        ),
{
    lemma_dies(m, m, table, own, 0, at, e, o, size);
}

/// While invulnerability is switched on, the no-damage flag of the player's valid unit is set after
/// every tick, also after one that kills, and no other bit of the flags changes; while it is
/// switched off, a tick leaves the flags as they are. The flags lie outside the vitality fields of
/// the units that a tick may kill.
pub proof fn law_invulnerability_holds(s: Cheats, m: Bytes, tls: u64, flags: u32)
    requires
        ({
            let player = player_body(m, tls);
            let m1 = shielded(s, m, player);
            &&& unit_body(m, player)
            &&& u32_at(m, off(player, OBJ_FLAGS)) == Some(flags)
            &&& s.oneshot ==> match side(m1, tls, player) {
                None => true,
                Some(own) => steady(m1, table_base(m1, tls), own) && forall|x: u64| #[trigger]
                    inside(x, off(player, OBJ_FLAGS), 4) ==> !kill_room(
                        m1,
                        table_base(m1, tls),
                        own,
                    ).contains(x),
            }
        }),
    ensures
        ({
            let player = player_body(m, tls);
            let after = finished(s, shielded(s, m, player), tls, player);
            u32_at(after, off(player, OBJ_FLAGS)) == Some(
                if s.invuln {
                    flags | FLAG_NO_DAMAGE
                } else {
                    flags
                },
            )
        }),
{
    let player = player_body(m, tls);
    let at = off(player, OBJ_FLAGS);
    let m1 = shielded(s, m, player);
    let after = finished(s, m1, tls, player);
    lemma_put32_frame(m, at, flags | FLAG_NO_DAMAGE);
    if let Some(own) = side(m1, tls, player) {
        let table = table_base(m1, tls);
        if s.oneshot && table != 0 {
            law_one_shot_frame(m1, table, own);
            assert forall|x: u64| #[trigger] inside(x, at, 4) implies u8_at(after, x) == u8_at(
                m1,
                x,
            ) by {
                assert(!kill_room(m1, table, own).contains(x));
            }
            lemma_agree32(after, m1, at);
        }
    }
}

/// What looks like a unit's body, by the fields: the 16-bit size of the vitality records at 0x174
/// is a multiple of 24, from 24 to 6120.
pub proof fn law_unit_bodies(m: Bytes, u: u64, size: u16)
    requires
        u16_at(m, off(u, 0x174)) == Some(size),
    ensures
        unit_body(m, u) <==> u != 0 && size as int % 24 == 0 && 24 <= size <= 6120,
        !unit_body(m, 0),
{
}

/// One-shot kills finish off a unit that is not the player's own, neither on the player's team nor
/// owned by the player, with a vitality record in use that is below 1: all by the fields of its
/// body.
pub proof fn law_doomed_by_fields(m: Bytes, own: Side, b: u64, w: u16, o: u16, size: u16, k: int)
    requires
        unit_body(m, b),
        b != own.body,
        u16_at(m, off(b, 0x1ba)) == Some(w),
        signed8((w % 256) as u8) != own.team,
        own.index is None || i16_at(m, off(b, 0x1bc)) != own.index,
        u16_at(m, off(b, 0x176)) == Some(o),
        u16_at(m, off(b, 0x174)) == Some(size),
        0 <= k < size as int / 24,
        ({
            let rec = elem(off(b, o as u64), k, 24);
            &&& u16_at(m, off(rec, 0xe)) matches Some(used) && used != 0xffff
            &&& u32_at(m, off(rec, 0x10)) matches Some(v) && less32(v, 0x3f80_0000)
        }),
    ensures
        doomed(m, own, b),
{
    assert(record_hurt(m, off(b, o as u64), k));
    assert(any_hurt(m, off(b, o as u64), size as int / 0x18));
}

/// One-shot kills spare the player's own unit, a unit of the player's team whatever the upper byte
/// of its team word says, a unit that the player owns, and a unit whose records in use are all
/// full.
pub proof fn law_spared_by_fields(m: Bytes, own: Side, b: u64, w: u16)
    requires
        u16_at(m, off(b, 0x1ba)) == Some(w),
    ensures
        !doomed(m, own, own.body),
        signed8((w % 256) as u8) == own.team ==> !doomed(m, own, b),
        own.index is Some && i16_at(m, off(b, 0x1bc)) == own.index ==> !doomed(m, own, b),
        !damaged(m, b) ==> !doomed(m, own, b),
{
}

/// Nothing is killed while one-shot kills are off, without a unit of the player's, or where the
/// player's team cannot be read; and nothing is shielded while invulnerability is off.
pub proof fn law_cheats_off(s: Cheats, m: Bytes, tls: u64, player: u64)
    ensures
        !s.oneshot ==> finished(s, m, tls, player) == m,
        player == 0 ==> finished(s, m, tls, player) == m,
        team_byte(m, tls) is None ==> finished(s, m, tls, player) == m,
        !s.invuln ==> shielded(s, m, player) == m,
        s.invuln && unit_body(m, player) ==> shielded(s, m, player) == no_damage(m, player, true),
{
}

/// Switching invulnerability on sets the bit 0x80 of the flags at 0x128, and switching it off
/// clears it.
pub proof fn law_no_damage_by_fields(m: Bytes, u: u64, flags: u32)
    requires
        u32_at(m, off(u, 0x128)) == Some(flags),
    ensures
        u32_at(no_damage(m, u, true), off(u, 0x128)) == Some(flags | 0x80),
        u32_at(no_damage(m, u, false), off(u, 0x128)) == Some(flags & !0x80),
{
    lemma_put32_frame(m, off(u, OBJ_FLAGS), flags | 0x80);
    lemma_put32_frame(m, off(u, OBJ_FLAGS), flags & !0x80);
}

/// Invulnerability is remembered as it was asked for, whether or not there is a unit to write it
/// to. That there is none is reported the first time alone.
pub proof fn law_invuln_asked(s: Cheats, on: bool, again: bool)
    ensures
        ({
            let (r, n) = invuln_asked(s, false, on);
            &&& n.invuln == on && n.oneshot == s.oneshot
            &&& !s.warned ==> r is Pending
            &&& s.warned ==> r is Silent
            &&& invuln_asked(n, false, again).0 is Silent
        }),
        invuln_asked(s, true, on).0 is Applied,
        invuln_asked(s, true, on).1 == (Cheats { invuln: on, ..s }),
{
}

} // verus!
