//! The object table: handles, records and object bodies.
//!
//! A handle is a salt in its upper half and a record index in its lower half. A record holds
//! the salt, an activity byte and the pointer to the object's body.

use vstd::prelude::*;

use crate::ieee::{finite32, is_finite32, less32, lt32, nan32};
use crate::memory::{
    Bytes, Memory, elem, elem_addr, link, off, triple_at, u16_at, u32_at, u64_at, u8_at,
};
use crate::simunit::{unit_body, valid_unit};

verus! {

pub const PCG_TLS_SLOT: u64 = 0x118; // player-control globals

pub const PLAYERS_TLS_SLOT: u64 = 0x30;

pub const OBJTABLE_TLS_SLOT: u64 = 0x20;

pub const PCG_LOCAL0_HANDLE: u64 = 0xb8;

pub const PLAYERS_TABLE_OFF: u64 = 0x50;

pub const S_PLAYER_STRIDE: u32 = 0x4b0;

pub const S_PLAYER_UNIT_HANDLE: u64 = 0x28;

pub const OBJTABLE_BASE_OFF: u64 = 0x50;

pub const OBJ_RECORD_STRIDE: u32 = 0x18;

pub const OBJ_RECORD_BODY: u64 = 0x10;

pub const OBJ_REC_SALT: u64 = 0x00; // u16

pub const OBJ_REC_ACTIVE: u64 = 0x02; // u8, bit 1: update this object

pub const BODY_POS: u64 = 0x44; // 3 floats, world units

/// The handle that names nothing.
pub const NO_HANDLE: u32 = 0xffff_ffff;

/// How many records a search for units looks at.
pub const UNIT_RECORDS: u32 = 2048;

/// How many records a search for a body looks at.
pub const BODY_RECORDS: u32 = 4096;

/// The record index of a handle.
pub open spec fn index_of(handle: u32) -> int {
    (handle % 0x1_0000) as int
}

/// The handle made of a salt and a record index.
pub open spec fn handle_of(salt: u16, index: int) -> u32 {
    (salt * 0x1_0000 + index) as u32
}

/// The player-control globals and the handle of local player 0.
pub open spec fn local_player(m: Bytes, tls: u64) -> Option<(u64, u32)> {
    if tls == 0 {
        None
    } else {
        match link(m, off(tls, PCG_TLS_SLOT)) {
            None => None,
            Some(pcg) => match u32_at(m, off(pcg, PCG_LOCAL0_HANDLE)) {
                None => None,
                Some(h) => if h == NO_HANDLE {
                    None
                } else {
                    Some((pcg, h))
                },
            },
        }
    }
}

/// Address of the slot that holds the local player's unit handle: 0 if it cannot be resolved.
pub open spec fn unit_slot(m: Bytes, tls: u64) -> u64 {
    match local_player(m, tls) {
        None => 0,
        Some((pcg, h)) => match link(m, off(tls, PLAYERS_TLS_SLOT)) {
            None => 0,
            Some(players) => match link(m, off(players, PLAYERS_TABLE_OFF)) {
                None => 0,
                Some(table) => off(
                    elem(table, index_of(h), S_PLAYER_STRIDE as int),
                    S_PLAYER_UNIT_HANDLE,
                ),
            },
        },
    }
}

/// Base of the object table: 0 if it cannot be resolved.
pub open spec fn table_base(m: Bytes, tls: u64) -> u64 {
    if tls == 0 {
        0
    } else {
        match link(m, off(tls, OBJTABLE_TLS_SLOT)) {
            None => 0,
            Some(glob) => match u64_at(m, off(glob, OBJTABLE_BASE_OFF)) {
                None => 0,
                Some(t) => t,
            },
        }
    }
}

/// Address of record `index`.
pub open spec fn record(table: u64, index: int) -> u64 {
    elem(table, index, OBJ_RECORD_STRIDE as int)
}

/// The body pointer in record `index`.
pub open spec fn record_body(m: Bytes, table: u64, index: int) -> Option<u64> {
    u64_at(m, off(record(table, index), OBJ_RECORD_BODY))
}

/// The salt in record `index`.
pub open spec fn record_salt(m: Bytes, table: u64, index: int) -> Option<u16> {
    u16_at(m, off(record(table, index), OBJ_REC_SALT))
}

/// The body of the object that `handle` names: 0 if it cannot be resolved. The salt is not
/// looked at.
pub open spec fn body_of(m: Bytes, tls: u64, handle: u32) -> u64 {
    if handle == NO_HANDLE || table_base(m, tls) == 0 {
        0
    } else {
        match record_body(m, table_base(m, tls), index_of(handle)) {
            None => 0,
            Some(b) => b,
        }
    }
}

/// The local player's unit handle, if the player has a unit.
pub open spec fn player_handle(m: Bytes, tls: u64) -> Option<u32> {
    if unit_slot(m, tls) == 0 {
        None
    } else {
        match u32_at(m, unit_slot(m, tls)) {
            None => None,
            Some(h) => if h == NO_HANDLE {
                None
            } else {
                Some(h)
            },
        }
    }
}

/// The body of the local player's unit: 0 if it cannot be resolved.
pub open spec fn player_body(m: Bytes, tls: u64) -> u64 {
    match player_handle(m, tls) {
        None => 0,
        Some(h) => body_of(m, tls, h),
    }
}

/// `handle` names a live object: its salt is the one in its record.
pub open spec fn live(m: Bytes, tls: u64, handle: u32) -> bool {
    handle != NO_HANDLE && table_base(m, tls) != 0 && record_salt(
        m,
        table_base(m, tls),
        index_of(handle),
    ) == Some((handle / 0x1_0000) as u16)
}

/// Memory after the object that `handle` names is marked for update. Nothing happens without a
/// table.
pub open spec fn marked_active(m: Bytes, table: u64, handle: u32) -> Bytes {
    let a = off(record(table, index_of(handle)), OBJ_REC_ACTIVE);
    if table == 0 {
        m
    } else {
        match u8_at(m, a) {
            None => m,
            Some(v) => m.insert(a, v | 2),
        }
    }
}

pub(crate) fn local_player_handle(m: &mut Memory, tls: u64) -> (r: Option<(u64, u32)>)
    ensures
        r == local_player(old(m)@, tls),
        final(m)@ == old(m)@,
{
    if tls == 0 {
        return None;
    }
    let pcg = m.read_link(tls.wrapping_add(PCG_TLS_SLOT))?;
    let h = m.read_u32(pcg.wrapping_add(PCG_LOCAL0_HANDLE))?;
    if h == NO_HANDLE {
        return None;
    }
    Some((pcg, h))
}

fn resolve_unit_slot(m: &mut Memory, tls: u64) -> (r: Option<u64>)
    ensures
        unit_slot(old(m)@, tls) == match r {
            Some(s) => s,
            None => 0,
        },
        final(m)@ == old(m)@,
{
    let (_pcg, h) = local_player_handle(m, tls)?;
    let players = m.read_link(tls.wrapping_add(PLAYERS_TLS_SLOT))?;
    let table = m.read_link(players.wrapping_add(PLAYERS_TABLE_OFF))?;
    Some(
        elem_addr(table, (h % 0x1_0000) as u64, S_PLAYER_STRIDE).wrapping_add(
            S_PLAYER_UNIT_HANDLE,
        ),
    )
}

/// Address of the local player's unit-handle slot (0 if the chain cannot be resolved).
pub fn player_unit_slot(m: &mut Memory, tls: u64) -> (r: u64)
    ensures
        r == unit_slot(old(m)@, tls),
        final(m)@ == old(m)@,
{
    match resolve_unit_slot(m, tls) {
        Some(s) => s,
        None => 0,
    }
}

/// Base of the object table (0 if unresolved).
pub fn object_table(m: &mut Memory, tls: u64) -> (r: u64)
    ensures
        r == table_base(old(m)@, tls),
        final(m)@ == old(m)@,
{
    if tls == 0 {
        return 0;
    }
    match m.read_link(tls.wrapping_add(OBJTABLE_TLS_SLOT)) {
        None => 0,
        Some(glob) => match m.read_u64(glob.wrapping_add(OBJTABLE_BASE_OFF)) {
            None => 0,
            Some(t) => t,
        },
    }
}

pub(crate) fn record_addr(table: u64, index: u32) -> (r: u64)
    ensures
        r == record(table, index as int),
{
    elem_addr(table, index as u64, OBJ_RECORD_STRIDE)
}

/// The body of the object that `handle` names (0 if it names nothing or cannot be resolved).
pub fn object_body(m: &mut Memory, tls: u64, handle: u32) -> (r: u64)
    ensures
        r == body_of(old(m)@, tls, handle),
        final(m)@ == old(m)@,
{
    if handle == NO_HANDLE {
        return 0;
    }
    let table = object_table(m, tls);
    if table == 0 {
        return 0;
    }
    match m.read_u64(record_addr(table, handle % 0x1_0000).wrapping_add(OBJ_RECORD_BODY)) {
        Some(b) => b,
        None => 0,
    }
}

/// The local player's current unit handle (`None` if unresolved or without a unit).
pub fn player_unit_handle(m: &mut Memory, tls: u64) -> (r: Option<u32>)
    ensures
        r == player_handle(old(m)@, tls),
        final(m)@ == old(m)@,
{
    let s = player_unit_slot(m, tls);
    if s == 0 {
        return None;
    }
    let h = m.read_u32(s)?;
    if h == NO_HANDLE {
        None
    } else {
        Some(h)
    }
}

/// The body of the local player's unit (0 if unavailable). It may be stale: check it with
/// [`valid_unit`] before writing.
pub fn player_unit(m: &mut Memory, tls: u64) -> (r: u64)
    ensures
        r == player_body(old(m)@, tls),
        final(m)@ == old(m)@,
{
    match player_unit_handle(m, tls) {
        Some(h) => object_body(m, tls, h),
        None => 0,
    }
}

/// Whether `handle` still names a live object. Guards against writing to a body whose record
/// was freed or reused.
pub fn handle_live(m: &mut Memory, tls: u64, handle: u32) -> (r: bool)
    ensures
        r == live(old(m)@, tls, handle),
        final(m)@ == old(m)@,
{
    if handle == NO_HANDLE {
        return false;
    }
    let table = object_table(m, tls);
    if table == 0 {
        return false;
    }
    match m.read_u16(record_addr(table, handle % 0x1_0000).wrapping_add(OBJ_REC_SALT)) {
        None => false,
        Some(salt) => salt as u32 == handle / 0x1_0000,
    }
}

/// Mark the object that `handle` names for update.
pub(crate) fn mark_active(m: &mut Memory, table: u64, handle: u32)
    ensures
        final(m)@ == marked_active(old(m)@, table, handle),
{
    if table != 0 {
        let a = record_addr(table, handle % 0x1_0000).wrapping_add(OBJ_REC_ACTIVE);
        if let Some(v) = m.read_u8(a) {
            m.write_u8(a, v | 2);
        }
    }
}

/// The full handle of the unit in the record that `raw` points at, by a handle or a bare index.
pub open spec fn full_handle(m: Bytes, tls: u64, raw: u32) -> Option<u32> {
    let table = table_base(m, tls);
    if table == 0 {
        None
    } else {
        match record_body(m, table, index_of(raw)) {
            None => None,
            Some(b) => if !unit_body(m, b) {
                None
            } else {
                match record_salt(m, table, index_of(raw)) {
                    None => None,
                    Some(salt) => Some(handle_of(salt, index_of(raw))),
                }
            },
        }
    }
}

/// Turn a handle or a bare index into the full handle of the unit in that record, if there is
/// one.
pub fn normalize_to_full_handle(m: &mut Memory, tls: u64, raw: u32) -> (r: Option<u32>)
    ensures
        r == full_handle(old(m)@, tls, raw),
        final(m)@ == old(m)@,
{
    let table = object_table(m, tls);
    if table == 0 {
        return None;
    }
    let idx: u32 = raw % 0x1_0000;
    let rec = record_addr(table, idx);
    let body = m.read_u64(rec.wrapping_add(OBJ_RECORD_BODY))?;
    if !valid_unit(m, body) {
        return None;
    }
    let salt = m.read_u16(rec.wrapping_add(OBJ_REC_SALT))?;
    Some(salt as u32 * 0x1_0000 + idx)
}

/// A handle and a bare index with the same record give the same full handle, and what comes
/// back is live, unless it is the handle that names nothing.
pub proof fn law_full_handle_live(m: Bytes, tls: u64, raw: u32)
    requires
        full_handle(m, tls, raw) is Some,
        full_handle(m, tls, raw) != Some(NO_HANDLE),
    ensures
        live(m, tls, full_handle(m, tls, raw)->0),
        full_handle(m, tls, raw % 0x1_0000) == full_handle(m, tls, raw),
        full_handle(m, tls, full_handle(m, tls, raw)->0) == full_handle(m, tls, raw),
{
}

/// The position stored in a unit's body at `pos_off` can be read. `wide` positions are doubles.
pub open spec fn position_readable(m: Bytes, body: u64, pos_off: u64, wide: bool) -> bool {
    let p = off(body, pos_off);
    if wide {
        u64_at(m, p) is Some && u64_at(m, off(p, 8)) is Some && u64_at(m, off(p, 16)) is Some
    } else {
        triple_at(m, p) is Some
    }
}

/// The position stored in a unit's body, as bit patterns.
pub open spec fn position_bits(m: Bytes, body: u64, pos_off: u64, wide: bool) -> [u64; 3] {
    let p = off(body, pos_off);
    if wide {
        [u64_at(m, p)->0, u64_at(m, off(p, 8))->0, u64_at(m, off(p, 16))->0]
    } else {
        let t = triple_at(m, p)->0;
        [t[0] as u64, t[1] as u64, t[2] as u64]
    }
}

/// The units of the records `i..`, each with its record index and its position, up to the first
/// fault.
pub open spec fn units_from(m: Bytes, table: u64, pos_off: u64, wide: bool, i: int) -> Seq<
    (u32, [u64; 3]),
>
    decreases UNIT_RECORDS - i,
{
    if i >= UNIT_RECORDS {
        Seq::empty()
    } else {
        match record_body(m, table, i) {
            None => Seq::empty(),
            Some(b) => if !unit_body(m, b) {
                units_from(m, table, pos_off, wide, i + 1)
            } else if !position_readable(m, b, pos_off, wide) {
                Seq::empty()
            } else {
                seq![(i as u32, position_bits(m, b, pos_off, wide))] + units_from(
                    m,
                    table,
                    pos_off,
                    wide,
                    i + 1,
                )
            },
        }
    }
}

fn read_position(m: &mut Memory, body: u64, pos_off: u64, wide: bool) -> (r: Option<[u64; 3]>)
    ensures
        r is Some == position_readable(old(m)@, body, pos_off, wide),
        r matches Some(p) ==> p == position_bits(old(m)@, body, pos_off, wide),
        final(m)@ == old(m)@,
{
    let p = body.wrapping_add(pos_off);
    if wide {
        let x = m.read_u64(p)?;
        let y = m.read_u64(p.wrapping_add(8))?;
        let z = m.read_u64(p.wrapping_add(16))?;
        Some([x, y, z])
    } else {
        let t = m.read_triple(p)?;
        Some([t[0] as u64, t[1] as u64, t[2] as u64])
    }
}

/// List the units of the object table with their positions, as bit patterns, so that distances
/// can be computed. The list ends at the first fault.
pub fn unit_positions(m: &mut Memory, table: u64, pos_off: u64, wide: bool) -> (r: Vec<
    (u32, [u64; 3]),
>)
    ensures
        r@ == if table == 0 {
            Seq::empty()
        } else {
            units_from(old(m)@, table, pos_off, wide, 0)
        },
        final(m)@ == old(m)@,
{
    let mut out: Vec<(u32, [u64; 3])> = Vec::new();
    if table == 0 {
        return out;
    }
    let ghost all = units_from(m@, table, pos_off, wide, 0);
    let mut i: u32 = 0;
    assert(out@ + all =~= all);
    while i < UNIT_RECORDS
        invariant
            i <= UNIT_RECORDS,
            table != 0,
            m@ == old(m)@,
            all == units_from(old(m)@, table, pos_off, wide, 0),
            out@ + units_from(m@, table, pos_off, wide, i as int) == all,
        decreases UNIT_RECORDS - i,
    {
        match m.read_u64(record_addr(table, i).wrapping_add(OBJ_RECORD_BODY)) {
            None => {
                assert(out@ + Seq::<(u32, [u64; 3])>::empty() =~= out@);
                return out;
            },
            Some(b) => if valid_unit(m, b) {
                match read_position(m, b, pos_off, wide) {
                    None => {
                        assert(out@ + Seq::<(u32, [u64; 3])>::empty() =~= out@);
                        return out;
                    },
                    Some(p) => {
                        let ghost prior = out@;
                        let ghost rest = units_from(m@, table, pos_off, wide, i + 1);
                        out.push((i, p));
                        assert(prior + (seq![(i, p)] + rest) =~= out@ + rest);
                    },
                }
            },
        }
        i += 1;
    }
    assert(out@ + Seq::<(u32, [u64; 3])>::empty() =~= out@);
    out
}

/// The entry of `v` for record `i`; not-a-number where there is none.
pub open spec fn entry(v: Seq<u32>, i: int) -> u32 {
    if 0 <= i < v.len() {
        v[i]
    } else {
        0x7fc0_0000
    }
}

fn entry_at(v: &Vec<u32>, i: u32) -> (r: u32)
    ensures
        r == entry(v@, i as int),
{
    if (i as usize) < v.len() {
        v[i as usize]
    } else {
        0x7fc0_0000
    }
}

/// The best unit so far of a search: its handle, its record index, and how many units the
/// search has seen.
pub struct Search {
    pub best: Option<(u32, u32)>,
    pub seen: u32,
}

/// The search for the nearest unit, from record `i` on. A unit takes the place of the best so
/// far if its squared distance `d2` is below the best one's `bar`. The first fault ends the
/// search with what it has.
pub open spec fn nearest(
    m: Bytes,
    table: u64,
    salt_off: u64,
    pos_off: u64,
    wide: bool,
    d2: Seq<u32>,
    bar: Seq<u32>,
    i: int,
    s: Search,
) -> Search
    decreases UNIT_RECORDS - i,
{
    if i >= UNIT_RECORDS {
        s
    } else {
        match record_body(m, table, i) {
            None => s,
            Some(b) => if !unit_body(m, b) {
                nearest(m, table, salt_off, pos_off, wide, d2, bar, i + 1, s)
            } else {
                let s1 = Search { best: s.best, seen: (s.seen + 1) as u32 };
                if !position_readable(m, b, pos_off, wide) {
                    s1
                } else if s.best is Some && !less32(entry(d2, i), entry(bar, (s.best->0).1 as int)) {
                    nearest(m, table, salt_off, pos_off, wide, d2, bar, i + 1, s1)
                } else {
                    match u16_at(m, off(record(table, i), salt_off)) {
                        None => s1,
                        Some(salt) => nearest(
                            m,
                            table,
                            salt_off,
                            pos_off,
                            wide,
                            d2,
                            bar,
                            i + 1,
                            Search { best: Some((handle_of(salt, i), i as u32)), seen: s1.seen },
                        ),
                    }
                }
            },
        }
    }
}

fn nearest_unit(
    m: &mut Memory,
    table: u64,
    salt_off: u64,
    pos_off: u64,
    wide: bool,
    d2: &Vec<u32>,
    bar: &Vec<u32>,
) -> (r: Search)
    ensures
        r == nearest(
            old(m)@,
            table,
            salt_off,
            pos_off,
            wide,
            d2@,
            bar@,
            0,
            (Search { best: None, seen: 0 }),
        ),
        final(m)@ == old(m)@,
{
    let mut s = Search { best: None, seen: 0 };
    let ghost all = nearest(m@, table, salt_off, pos_off, wide, d2@, bar@, 0, s);
    let mut i: u32 = 0;
    while i < UNIT_RECORDS
        invariant
            i <= UNIT_RECORDS,
            m@ == old(m)@,
            s.seen <= i,
            all == nearest(
                old(m)@,
                table,
                salt_off,
                pos_off,
                wide,
                d2@,
                bar@,
                0,
                (Search { best: None, seen: 0 }),
            ),
            all == nearest(m@, table, salt_off, pos_off, wide, d2@, bar@, i as int, s),
        decreases UNIT_RECORDS - i,
    {
        let rec = record_addr(table, i);
        let body = match m.read_u64(rec.wrapping_add(OBJ_RECORD_BODY)) {
            None => return s,
            Some(b) => b,
        };
        if valid_unit(m, body) {
            s.seen = s.seen + 1;
            if read_position(m, body, pos_off, wide).is_none() {
                return s;
            }
            let takes = match s.best {
                None => true,
                Some((_h, j)) => lt32(entry_at(d2, i), entry_at(bar, j)),
            };
            if takes {
                match m.read_u16(rec.wrapping_add(salt_off)) {
                    None => return s,
                    Some(salt) => {
                        s.best = Some((salt as u32 * 0x1_0000 + i, i));
                    },
                }
            }
        }
        i += 1;
    }
    s
}

/// The outcome of [`unit_handle_near`] for a known salt offset.
pub open spec fn near_outcome(
    m: Bytes,
    tls: u64,
    salt: u64,
    pos_off: u64,
    wide: bool,
    d2: Seq<u32>,
    root: Seq<u32>,
) -> Option<(u32, u32)> {
    let s = nearest(
        m,
        table_base(m, tls),
        salt,
        pos_off,
        wide,
        d2,
        d2,
        0,
        Search { best: None, seen: 0 },
    );
    match s.best {
        None => None,
        Some((h, i)) => Some((h, entry(root, i as int))),
    }
}

/// Handle of, and distance to, the unit nearest to a point. `pos_off` and `wide` say where and
/// how a body stores its position. `d2` and `root` hold, by record index, the squared distance
/// of each unit that [`unit_positions`] lists and its square root.
pub fn unit_handle_near(
    m: &mut Memory,
    tls: u64,
    cal: &mut SaltOffset,
    pos_off: u64,
    wide: bool,
    d2: &Vec<u32>,
    root: &Vec<u32>,
) -> (r: Option<(u32, u32)>)
    ensures
        r == if table_base(old(m)@, tls) == 0 {
            None
        } else {
            match calibrated(old(m)@, tls, old(cal).known) {
                None => None,
                Some(salt) => near_outcome(old(m)@, tls, salt, pos_off, wide, d2@, root@),
            }
        },
        final(cal).known == if table_base(old(m)@, tls) == 0 {
            old(cal).known
        } else {
            calibrated(old(m)@, tls, old(cal).known)
        },
        final(m)@ == old(m)@,
{
    let table = object_table(m, tls);
    if table == 0 {
        return None;
    }
    let salt = salt_off(m, tls, cal)?;
    let s = nearest_unit(m, table, salt, pos_off, wide, d2, d2);
    match s.best {
        None => None,
        Some((h, i)) => Some((h, entry_at(root, i))),
    }
}

/// The outcome of [`unit_handle_near_pos`].
pub open spec fn near_pos_outcome(
    m: Bytes,
    tls: u64,
    d2: Seq<u32>,
    root: Seq<u32>,
    root_squared: Seq<u32>,
) -> Option<(u32, u32, u32)> {
    let table = table_base(m, tls);
    let s = nearest(
        m,
        table,
        OBJ_REC_SALT,
        BODY_POS,
        false,
        d2,
        root_squared,
        0,
        Search { best: None, seen: 0 },
    );
    if table == 0 {
        None
    } else {
        match s.best {
            None => None,
            Some((h, i)) => Some((h, entry(root, i as int), s.seen)),
        }
    }
}

/// The unit nearest to a point of the simulation: its handle, its distance, and how many units
/// there are. By record index, `d2` holds the squared distance of each unit, `root` its square
/// root and `root_squared` the square of that root, which later units are held against.
pub fn unit_handle_near_pos(
    m: &mut Memory,
    tls: u64,
    d2: &Vec<u32>,
    root: &Vec<u32>,
    root_squared: &Vec<u32>,
) -> (r: Option<(u32, u32, u32)>)
    ensures
        r == near_pos_outcome(old(m)@, tls, d2@, root@, root_squared@),
        final(m)@ == old(m)@,
{
    let table = object_table(m, tls);
    if table == 0 {
        return None;
    }
    let s = nearest_unit(m, table, OBJ_REC_SALT, BODY_POS, false, d2, root_squared);
    match s.best {
        None => None,
        Some((h, i)) => Some((h, entry_at(root, i), s.seen)),
    }
}

/// Where a record keeps its salt, once that is known.
#[derive(Clone, Copy)]
pub struct SaltOffset {
    pub known: Option<u64>,
}

impl SaltOffset {
    /// Not known yet.
    pub fn new() -> (r: SaltOffset)
        ensures
            r.known is None,
    {
        SaltOffset { known: None }
    }
}

/// The first even offset from `o` on, before the body pointer, at which the record at `rec`
/// holds `salt`. A fault ends the search.
pub open spec fn salt_position(m: Bytes, rec: u64, salt: u16, o: int) -> Option<u64>
    decreases OBJ_RECORD_BODY + 2 - o,
{
    if o < 0 || o >= OBJ_RECORD_BODY {
        None
    } else {
        match u16_at(m, off(rec, o as u64)) {
            None => None,
            Some(v) => if v == salt {
                Some(o as u64)
            } else {
                salt_position(m, rec, salt, o + 2)
            },
        }
    }
}

/// The salt offset after an attempt to find it: the known one, or the place in the player's own
/// record where the player's salt stands. A zero salt tells nothing.
pub open spec fn calibrated(m: Bytes, tls: u64, known: Option<u64>) -> Option<u64> {
    match known {
        Some(o) => Some(o),
        None => match player_handle(m, tls) {
            None => None,
            Some(h) => if h / 0x1_0000 == 0 || table_base(m, tls) == 0 {
                None
            } else {
                salt_position(
                    m,
                    record(table_base(m, tls), index_of(h)),
                    (h / 0x1_0000) as u16,
                    0,
                )
            },
        },
    }
}

/// The offset of the salt within a record, found by the player's own record and kept.
pub fn salt_off(m: &mut Memory, tls: u64, cal: &mut SaltOffset) -> (r: Option<u64>)
    ensures
        r == calibrated(old(m)@, tls, old(cal).known),
        final(cal).known == r,
        final(m)@ == old(m)@,
{
    if cal.known.is_some() {
        return cal.known;
    }
    let h = player_unit_handle(m, tls)?;
    let salt = (h / 0x1_0000) as u16;
    if salt == 0 {
        return None;
    }
    let table = object_table(m, tls);
    if table == 0 {
        return None;
    }
    let rec = record_addr(table, h % 0x1_0000);
    let mut o: u64 = 0;
    while o < OBJ_RECORD_BODY
        invariant
            o % 2 == 0,
            o <= OBJ_RECORD_BODY,
            m@ == old(m)@,
            cal.known is None,
            calibrated(old(m)@, tls, old(cal).known) == salt_position(m@, rec, salt, o as int),
        decreases OBJ_RECORD_BODY - o,
    {
        match m.read_u16(rec.wrapping_add(o)) {
            None => return None,
            Some(v) => if v == salt {
                cal.known = Some(o);
                return Some(o);
            },
        }
        o += 2;
    }
    None
}

/// A salt offset that was found stays.
pub proof fn law_calibration_stays(m1: Bytes, m2: Bytes, tls1: u64, tls2: u64, known: Option<u64>)
    requires
        calibrated(m1, tls1, known) is Some,
    ensures
        calibrated(m2, tls2, calibrated(m1, tls1, known)) == calibrated(m1, tls1, known),
{
}

/// The handle of the first record from `i` on whose body is `body`. A fault ends the search.
pub open spec fn handle_of_body(m: Bytes, table: u64, salt_off: u64, body: u64, i: int) -> Option<
    u32,
>
    decreases BODY_RECORDS - i,
{
    if i >= BODY_RECORDS {
        None
    } else {
        match record_body(m, table, i) {
            None => None,
            Some(b) => if b == body {
                match u16_at(m, off(record(table, i), salt_off)) {
                    None => None,
                    Some(salt) => Some(handle_of(salt, i)),
                }
            } else {
                handle_of_body(m, table, salt_off, body, i + 1)
            },
        }
    }
}

/// The full handle for an object body, by its record in the object table.
pub fn handle_for_body(m: &mut Memory, tls: u64, cal: &mut SaltOffset, body: u64) -> (r: Option<
    u32,
>)
    ensures
        r == if body == 0 || table_base(old(m)@, tls) == 0 {
            None
        } else {
            match calibrated(old(m)@, tls, old(cal).known) {
                None => None,
                Some(salt) => handle_of_body(old(m)@, table_base(old(m)@, tls), salt, body, 0),
            }
        },
        final(cal).known == if body == 0 || table_base(old(m)@, tls) == 0 {
            old(cal).known
        } else {
            calibrated(old(m)@, tls, old(cal).known)
        },
        final(m)@ == old(m)@,
{
    if body == 0 {
        return None;
    }
    let table = object_table(m, tls);
    if table == 0 {
        return None;
    }
    let salt_at = salt_off(m, tls, cal)?;
    let ghost known = cal.known;
    let mut i: u32 = 0;
    while i < BODY_RECORDS
        invariant
            i <= BODY_RECORDS,
            m@ == old(m)@,
            cal.known == known,
            known == Some(salt_at),
            body != 0,
            table != 0,
            table == table_base(old(m)@, tls),
            calibrated(old(m)@, tls, old(cal).known) == known,
            handle_of_body(old(m)@, table, salt_at, body, 0) == handle_of_body(
                m@,
                table,
                salt_at,
                body,
                i as int,
            ),
        decreases BODY_RECORDS - i,
    {
        let rec = record_addr(table, i);
        let b = m.read_u64(rec.wrapping_add(OBJ_RECORD_BODY))?;
        if b == body {
            let salt = m.read_u16(rec.wrapping_add(salt_at))?;
            return Some(salt as u32 * 0x1_0000 + i);
        }
        i += 1;
    }
    None
}

/// A handle found for a body leads back to that body, unless it is the handle that names
/// nothing.
pub proof fn law_handle_for_body(m: Bytes, tls: u64, salt_off: u64, body: u64, i: int, h: u32)
    requires
        0 <= i,
        table_base(m, tls) != 0,
        handle_of_body(m, table_base(m, tls), salt_off, body, i) == Some(h),
        h != NO_HANDLE,
    ensures
        body_of(m, tls, h) == body,
    decreases BODY_RECORDS - i,
{
    match record_body(m, table_base(m, tls), i) {
        Some(b) => {
            if b != body {
                law_handle_for_body(m, tls, salt_off, body, i + 1, h);
            }
        },
        None => {},
    }
}

/// The position of the local player's unit, in world units.
pub open spec fn player_position(m: Bytes, tls: u64) -> Option<[u32; 3]> {
    let u = player_body(m, tls);
    if !unit_body(m, u) {
        None
    } else {
        match triple_at(m, off(u, BODY_POS)) {
            None => None,
            Some(p) => if finite32(p[0]) && finite32(p[1]) && finite32(p[2]) {
                Some(p)
            } else {
                None
            },
        }
    }
}

/// The local player's position in the simulation, if the player has a valid unit and the
/// position is finite.
pub fn player_sim_pos(m: &mut Memory, tls: u64) -> (r: Option<[u32; 3]>)
    ensures
        r == player_position(old(m)@, tls),
        final(m)@ == old(m)@,
{
    let u = player_unit(m, tls);
    if !valid_unit(m, u) {
        return None;
    }
    let p = m.read_triple(u.wrapping_add(BODY_POS))?;
    if is_finite32(p[0]) && is_finite32(p[1]) && is_finite32(p[2]) {
        Some(p)
    } else {
        None
    }
}

/// A handle is the salt of its object in its upper half, and the object's place in the table in
/// its lower half.
pub proof fn law_handle_parts(salt: u16, i: int, h: u32)
    requires
        0 <= i < 65536,
    ensures
        index_of(handle_of(salt, i)) == i,
        handle_of(salt, i) as int / 65536 == salt,
        h == handle_of((h / 65536) as u16, index_of(h)),
{
}

/// An object is alive under a handle as long as its record has the handle's salt.
pub proof fn law_live_by_salt(m: Bytes, tls: u64, h: u32, salt: u16)
    requires
        h != 0xffff_ffff,
        table_base(m, tls) != 0,
        u16_at(m, elem(table_base(m, tls), h as int % 65536, 24)) == Some(salt),
    ensures
        live(m, tls, h) <==> h as int / 65536 == salt,
        !live(m, tls, 0xffff_ffff),
{
}

/// Marking an object for update sets the bit of value 2 in its record's flags, at 2, and nothing
/// else.
pub proof fn law_marked_active(m: Bytes, table: u64, h: u32, v: u8, x: u64)
    requires
        table != 0,
        u8_at(m, off(elem(table, h as int % 65536, 24), 2)) == Some(v),
    ensures
        u8_at(marked_active(m, table, h), off(elem(table, h as int % 65536, 24), 2)) == Some(v | 2),
        x != off(elem(table, h as int % 65536, 24), 2) ==> u8_at(marked_active(m, table, h), x)
            == u8_at(m, x),
{
}

/// Every record of a unit in the table can be searched: its place and its salt can be read.
pub open spec fn searchable(m: Bytes, table: u64, salt_off: u64, pos_off: u64, wide: bool) -> bool {
    forall|j: int|
        0 <= j < 2048 ==> (#[trigger] record_body(m, table, j) matches Some(b) && (unit_body(m, b)
            ==> position_readable(m, b, pos_off, wide) && u16_at(
            m,
            off(record(table, j), salt_off),
        ) is Some))
}

proof fn lemma_nearest(
    m: Bytes,
    table: u64,
    salt_off: u64,
    pos_off: u64,
    wide: bool,
    d2: Seq<u32>,
    i: int,
    s: Search,
    j: int,
)
    requires
        searchable(m, table, salt_off, pos_off, wide),
        forall|k: int| 0 <= k < 2048 ==> !nan32(#[trigger] entry(d2, k)),
        0 <= i,
        0 <= j < 2048,
        unit_body(m, record_body(m, table, j)->0),
        s.best matches Some((h, at)) ==> at < 2048,
        j < i ==> (s.best matches Some((h, at)) && !less32(entry(d2, j), entry(d2, at as int))),
    ensures
        nearest(m, table, salt_off, pos_off, wide, d2, d2, i, s).best matches Some((h, at)) && !less32(
            entry(d2, j),
            entry(d2, at as int),
        ),
    decreases 2048 - i,
{
    if i < UNIT_RECORDS {
        assert(record_body(m, table, i) is Some);
        assert(record_body(m, table, j) is Some);
        let b = record_body(m, table, i)->0;
        if !unit_body(m, b) {
            lemma_nearest(m, table, salt_off, pos_off, wide, d2, i + 1, s, j);
        } else {
            let s1 = Search { best: s.best, seen: (s.seen + 1) as u32 };
            assert(!nan32(entry(d2, i)));
            assert(!nan32(entry(d2, j)));
            if s.best is Some {
                assert(!nan32(entry(d2, (s.best->0).1 as int)));
            }
            if s.best is Some && !less32(entry(d2, i), entry(d2, (s.best->0).1 as int)) {
                lemma_nearest(m, table, salt_off, pos_off, wide, d2, i + 1, s1, j);
            } else {
                let salt = u16_at(m, off(record(table, i), salt_off))->0;
                let s2 = Search { best: Some((handle_of(salt, i), i as u32)), seen: s1.seen };
                lemma_nearest(m, table, salt_off, pos_off, wide, d2, i + 1, s2, j);
            }
        }
    }
}

/// The unit that a search by place comes up with is the nearest: no unit of the table has a lower
/// squared distance.
pub proof fn law_nearest_unit(
    m: Bytes,
    table: u64,
    salt_off: u64,
    pos_off: u64,
    wide: bool,
    d2: Seq<u32>,
    j: int,
)
    requires
        searchable(m, table, salt_off, pos_off, wide),
        forall|k: int| 0 <= k < 2048 ==> !nan32(#[trigger] entry(d2, k)),
        0 <= j < 2048,
        unit_body(m, record_body(m, table, j)->0),
    ensures
        nearest(
            m,
            table,
            salt_off,
            pos_off,
            wide,
            d2,
            d2,
            0,
            Search { best: None, seen: 0 },
        ).best matches Some((h, at)) && !less32(entry(d2, j), entry(d2, at as int)),
{
    lemma_nearest(
        m,
        table,
        salt_off,
        pos_off,
        wide,
        d2,
        0,
        Search { best: None, seen: 0 },
        j,
    );
}

/// The body of an object is the pointer at 16 of its record, in a table of records of 24 bytes
/// each. The handle that names nothing has no body.
pub proof fn law_body_of_handle(m: Bytes, tls: u64, h: u32, glob: u64, table: u64, b: u64)
    requires
        tls != 0,
        link(m, off(tls, 0x20)) == Some(glob),
        u64_at(m, off(glob, 0x50)) == Some(table),
        table != 0,
        u64_at(m, off(elem(table, h as int % 65536, 24), 16)) == Some(b),
    ensures
        h != 0xffff_ffff ==> body_of(m, tls, h) == b,
        body_of(m, tls, 0xffff_ffff) == 0,
{
}

/// The salt of a record is taken to stand at the first even place where the salt that is looked for
/// stands, before the body.
pub proof fn law_salt_place(m: Bytes, rec: u64, salt: u16, o: int, p: u64)
    requires
        0 <= o,
        o % 2 == 0,
        salt_position(m, rec, salt, o) == Some(p),
    ensures
        o <= p < 16,
        p % 2 == 0,
        u16_at(m, off(rec, p)) == Some(salt),
        forall|k: int|
            o <= k < p && k % 2 == 0 ==> u16_at(m, #[trigger] off(rec, k as u64)) != Some(salt),
    decreases 16 - o,
{
    if o < OBJ_RECORD_BODY {
        if u16_at(m, off(rec, o as u64)) != Some(salt) {
            law_salt_place(m, rec, salt, o + 2, p);
            assert forall|k: int| o <= k < p && k % 2 == 0 implies u16_at(
                m,
                #[trigger] off(rec, k as u64),
            ) != Some(salt) by {
                if k > o {
                    assert(k >= o + 2);
                }
            }
        }
    }
}

} // verus!
