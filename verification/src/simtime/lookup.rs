//! Finding the roots: the simulation thread's TLS block, and the clock and the game globals
//! that hang off it.
//!
//! Only the simulation thread's TLS block holds the pointers, so they are found by walking all
//! threads. A root that was found is kept for as long as it still looks right; while it is
//! missing, the walk is made on every 30th request only.

use vstd::prelude::*;

use crate::ieee::{less32, lt32};
use crate::memory::{
    Bytes, Memory, elem, elem_addr, i16_at, i32_at, link, off, u32_at, u64_at, u8_at,
};

verus! {

pub const SIM_TLS_INDEX_RVA: u64 = 0x00d7_2730;

pub const GTG_TLS_SLOT: u64 = 0x98; // game time globals

pub const GG_TLS_SLOT: u64 = 0x60; // game globals

pub const TEB_TLS_POINTER: u64 = 0x58;

pub const GTG_TICK_RATE: u64 = 0x06; // i16

pub const GTG_TICK_LENGTH: u64 = 0x08; // float, seconds per tick

pub const GTG_GAME_TICK: u64 = 0x0c; // i32

pub const GTG_GAME_SPEED: u64 = 0x10; // float, 1.0 at normal speed

/// How many requests there are to one walk of the threads.
pub const SCAN_EVERY: u64 = 30;

/// What a block found through a TLS slot has to look like.
#[derive(Clone, Copy, PartialEq, Eq, Structural)]
pub enum Wanted {
    GameTime,
    GameGlobals,
}

/// A pointer that a user-space block can have.
pub open spec fn plausible(p: u64) -> bool {
    0x1_0000 <= p < 0x0000_8000_0000_0000
}

/// `t` looks like the clock: a sane tick rate, a small positive tick length, a running tick
/// counter and a positive speed. The tick length need not be one over the tick rate: it is not
/// while time is scaled.
pub open spec fn game_time_like(m: Bytes, t: u64) -> bool {
    plausible(t) && match (
        i16_at(m, off(t, GTG_TICK_RATE)),
        u32_at(m, off(t, GTG_TICK_LENGTH)),
        i32_at(m, off(t, GTG_GAME_TICK)),
        u32_at(m, off(t, GTG_GAME_SPEED)),
    ) {
        (Some(rate), Some(length), Some(ticks), Some(speed)) => {
            &&& 24 <= rate <= 240
            &&& less32(0, length)
            &&& less32(length, 0x3f00_0000)
            &&& 100 <= ticks < 500_000_000
            &&& less32(0, speed)
            &&& less32(speed, 0x447a_0000)
        },
        _ => false,
    }
}

/// `blk` looks like the game globals: its scenario byte is 1 or 2.
pub open spec fn game_globals_like(m: Bytes, blk: u64) -> bool {
    plausible(blk) && match u8_at(m, off(blk, 0x10)) {
        None => false,
        Some(s) => s == 1 || s == 2,
    }
}

/// `block` is the simulation thread's TLS block: its game-globals slot holds what looks like
/// the game globals.
pub open spec fn sim_block(m: Bytes, block: u64) -> bool {
    plausible(block) && match u64_at(m, off(block, GG_TLS_SLOT)) {
        None => false,
        Some(gg) => game_globals_like(m, gg),
    }
}

/// The block looks like what is wanted.
pub open spec fn fits(m: Bytes, w: Wanted, p: u64) -> bool {
    match w {
        Wanted::GameTime => game_time_like(m, p),
        Wanted::GameGlobals => game_globals_like(m, p),
    }
}

/// The simulation module's TLS index, unless the module is not loaded.
pub open spec fn tls_number(m: Bytes, sim_base: u64) -> Option<u32> {
    if sim_base == 0 {
        None
    } else {
        u32_at(m, off(sim_base, SIM_TLS_INDEX_RVA))
    }
}

/// The TLS block of the thread with the environment block `teb`: 0 if it has none.
pub open spec fn thread_block(m: Bytes, teb: u64, idx: u32) -> u64 {
    if teb == 0 {
        0
    } else {
        match link(m, off(teb, TEB_TLS_POINTER)) {
            None => 0,
            Some(p) => match u64_at(m, elem(p, idx as int, 8)) {
                None => 0,
                Some(block) => block,
            },
        }
    }
}

/// The pointer in a slot of a thread's TLS block: 0 if there is none.
pub open spec fn thread_slot(m: Bytes, teb: u64, idx: u32, slot: u64) -> u64 {
    if thread_block(m, teb, idx) == 0 {
        0
    } else {
        match u64_at(m, off(thread_block(m, teb, idx), slot)) {
            None => 0,
            Some(p) => p,
        }
    }
}

/// The first pointer in `slot` of the threads from `i` on that looks like what is wanted.
pub open spec fn first_slot(
    m: Bytes,
    idx: u32,
    tebs: Seq<u64>,
    slot: u64,
    w: Wanted,
    i: int,
) -> u64
    decreases tebs.len() - i,
{
    if i >= tebs.len() {
        0
    } else {
        let p = thread_slot(m, tebs[i], idx, slot);
        if p != 0 && fits(m, w, p) {
            p
        } else {
            first_slot(m, idx, tebs, slot, w, i + 1)
        }
    }
}

/// The first TLS block of the threads from `i` on that is the simulation thread's.
pub open spec fn first_block(m: Bytes, idx: u32, tebs: Seq<u64>, i: int) -> u64
    decreases tebs.len() - i,
{
    if i >= tebs.len() {
        0
    } else {
        let b = thread_block(m, tebs[i], idx);
        if b != 0 && sim_block(m, b) {
            b
        } else {
            first_block(m, idx, tebs, i + 1)
        }
    }
}

/// What a walk of the threads finds in `slot`. `tebs` are the environment blocks of the
/// process's threads, `None` where the threads cannot be listed.
pub open spec fn walk_slot(
    m: Bytes,
    sim_base: u64,
    tebs: Option<Vec<u64>>,
    slot: u64,
    w: Wanted,
) -> u64 {
    match (tls_number(m, sim_base), tebs) {
        (Some(idx), Some(t)) => first_slot(m, idx, t@, slot, w, 0),
        _ => 0,
    }
}

/// Whether `t` looks like the clock.
pub fn looks_like_game_time(m: &mut Memory, t: u64) -> (r: bool)
    ensures
        r == game_time_like(old(m)@, t),
        final(m)@ == old(m)@,
{
    if t < 0x1_0000 || t >= 0x0000_8000_0000_0000 {
        return false;
    }
    let rate = m.read_i16(t.wrapping_add(GTG_TICK_RATE));
    let length = m.read_u32(t.wrapping_add(GTG_TICK_LENGTH));
    let ticks = m.read_i32(t.wrapping_add(GTG_GAME_TICK));
    let speed = m.read_u32(t.wrapping_add(GTG_GAME_SPEED));
    match (rate, length, ticks, speed) {
        (Some(rate), Some(length), Some(ticks), Some(speed)) => {
            24 <= rate && rate <= 240 && lt32(0, length) && lt32(length, 0x3f00_0000) && 100
                <= ticks && ticks < 500_000_000 && lt32(0, speed) && lt32(speed, 0x447a_0000)
        },
        _ => false,
    }
}

/// Whether `blk` looks like the game globals.
pub fn looks_like_game_globals(m: &mut Memory, blk: u64) -> (r: bool)
    ensures
        r == game_globals_like(old(m)@, blk),
        final(m)@ == old(m)@,
{
    if blk < 0x1_0000 || blk >= 0x0000_8000_0000_0000 {
        return false;
    }
    match m.read_u8(blk.wrapping_add(0x10)) {
        None => false,
        Some(s) => s == 1 || s == 2,
    }
}

/// Whether `block` is the simulation thread's TLS block.
pub fn is_sim_tls_block(m: &mut Memory, block: u64) -> (r: bool)
    ensures
        r == sim_block(old(m)@, block),
        final(m)@ == old(m)@,
{
    if block < 0x1_0000 || block >= 0x0000_8000_0000_0000 {
        return false;
    }
    match m.read_u64(block.wrapping_add(GG_TLS_SLOT)) {
        None => false,
        Some(gg) => looks_like_game_globals(m, gg),
    }
}

fn is_wanted(m: &mut Memory, w: Wanted, p: u64) -> (r: bool)
    ensures
        r == fits(old(m)@, w, p),
        final(m)@ == old(m)@,
{
    match w {
        Wanted::GameTime => looks_like_game_time(m, p),
        Wanted::GameGlobals => looks_like_game_globals(m, p),
    }
}

/// The simulation module's TLS index.
pub fn tls_index(m: &mut Memory, sim_base: u64) -> (r: Option<u32>)
    ensures
        r == tls_number(old(m)@, sim_base),
        final(m)@ == old(m)@,
{
    if sim_base == 0 {
        return None;
    }
    m.read_u32(sim_base.wrapping_add(SIM_TLS_INDEX_RVA))
}

/// The TLS block of one thread (0 if it has none).
pub fn read_thread_tls_block(m: &mut Memory, teb: u64, idx: u32) -> (r: u64)
    ensures
        r == thread_block(old(m)@, teb, idx),
        final(m)@ == old(m)@,
{
    if teb == 0 {
        return 0;
    }
    match m.read_link(teb.wrapping_add(TEB_TLS_POINTER)) {
        None => 0,
        Some(p) => match m.read_u64(elem_addr(p, idx as u64, 8)) {
            None => 0,
            Some(block) => block,
        },
    }
}

/// The pointer in a slot of one thread's TLS block (0 if there is none).
pub fn read_thread_slot(m: &mut Memory, teb: u64, idx: u32, slot: u64) -> (r: u64)
    ensures
        r == thread_slot(old(m)@, teb, idx, slot),
        final(m)@ == old(m)@,
{
    let block = read_thread_tls_block(m, teb, idx);
    if block == 0 {
        return 0;
    }
    match m.read_u64(block.wrapping_add(slot)) {
        None => 0,
        Some(p) => p,
    }
}

/// Walk the threads for the pointer in `slot` that looks like what is wanted (0 if none does).
pub fn scan_slot(m: &mut Memory, sim_base: u64, tebs: &Option<Vec<u64>>, slot: u64, w: Wanted) -> (r:
    u64)
    ensures
        r == walk_slot(old(m)@, sim_base, *tebs, slot, w),
        final(m)@ == old(m)@,
{
    let idx = match tls_index(m, sim_base) {
        Some(i) => i,
        None => return 0,
    };
    let list = match tebs {
        Some(t) => t,
        None => return 0,
    };
    let mut i: usize = 0;
    while i < list.len()
        invariant
            i <= list.len(),
            m@ == old(m)@,
            walk_slot(old(m)@, sim_base, *tebs, slot, w) == first_slot(
                m@,
                idx,
                list@,
                slot,
                w,
                i as int,
            ),
        decreases list.len() - i,
    {
        let p = read_thread_slot(m, list[i], idx, slot);
        if p != 0 && is_wanted(m, w, p) {
            return p;
        }
        i += 1;
    }
    0
}

/// The roots found so far, 0 where missing, and the request counters.
#[derive(Clone, Copy)]
pub struct Roots {
    pub game_time: u64,
    pub game_globals: u64,
    pub tls_block: u64,
    pub scan_tick: u64,
    pub scan_tick_tls: u64,
}

impl Roots {
    /// Nothing found yet.
    pub fn new() -> (r: Roots)
        ensures
            r == (Roots {
                game_time: 0,
                game_globals: 0,
                tls_block: 0,
                scan_tick: 0,
                scan_tick_tls: 0,
            }),
    {
        Roots { game_time: 0, game_globals: 0, tls_block: 0, scan_tick: 0, scan_tick_tls: 0 }
    }
}

/// The answer to a request for a root.
#[derive(Clone, Copy, PartialEq, Eq, Structural)]
pub enum Lookup {
    /// The root, or 0 while it is missing.
    Done(u64),
    /// List the threads and ask again with the list.
    Walk,
}

/// The answer for a root that is missing, given the request counter before the request.
pub open spec fn throttled(tick: u64) -> Lookup {
    if tick % 30 != 0 {
        Lookup::Done(0)
    } else {
        Lookup::Walk
    }
}

/// What a request comes to, and the counter after it: a kept address that looks right is handed
/// out, and without one a walk is due on every 30th request.
pub open spec fn looked_up(good: bool, kept: u64, tick: u64) -> (Lookup, u64) {
    if good {
        (Lookup::Done(kept), tick)
    } else {
        (throttled(tick), off(tick, 1))
    }
}

/// The game globals: kept while they look right, else looked for on every 30th request.
pub fn game_globals(s: &mut Roots, m: &mut Memory) -> (r: Lookup)
    ensures
        ({
            let good = old(s).game_globals != 0 && game_globals_like(old(m)@, old(s).game_globals);
            let (found, tick) = looked_up(good, old(s).game_globals, old(s).scan_tick);
            &&& r == found
            &&& *final(s) == (Roots { scan_tick: tick, ..*old(s) })
        }),
        final(m)@ == old(m)@,
{
    if s.game_globals != 0 && looks_like_game_globals(m, s.game_globals) {
        return Lookup::Done(s.game_globals);
    }
    let tick = s.scan_tick;
    s.scan_tick = tick.wrapping_add(1);
    if tick % SCAN_EVERY != 0 {
        return Lookup::Done(0);
    }
    Lookup::Walk
}

/// The game globals after a walk of the threads. What the walk finds is kept, 0 included.
pub fn game_globals_walked(
    s: &mut Roots,
    m: &mut Memory,
    sim_base: u64,
    tebs: &Option<Vec<u64>>,
) -> (r: u64)
    ensures
        r == walk_slot(old(m)@, sim_base, *tebs, GG_TLS_SLOT, Wanted::GameGlobals),
        *final(s) == (Roots { game_globals: r, ..*old(s) }),
        final(m)@ == old(m)@,
{
    let found = scan_slot(m, sim_base, tebs, GG_TLS_SLOT, Wanted::GameGlobals);
    s.game_globals = found;
    found
}

/// The simulation thread's TLS block: kept while it looks right, else looked for on every 30th
/// request.
pub fn sim_tls_block(s: &mut Roots, m: &mut Memory) -> (r: Lookup)
    ensures
        ({
            let good = old(s).tls_block != 0 && sim_block(old(m)@, old(s).tls_block);
            let (found, tick) = looked_up(good, old(s).tls_block, old(s).scan_tick_tls);
            &&& r == found
            &&& *final(s) == (Roots { scan_tick_tls: tick, ..*old(s) })
        }),
        final(m)@ == old(m)@,
{
    if s.tls_block != 0 && is_sim_tls_block(m, s.tls_block) {
        return Lookup::Done(s.tls_block);
    }
    let tick = s.scan_tick_tls;
    s.scan_tick_tls = tick.wrapping_add(1);
    if tick % SCAN_EVERY != 0 {
        return Lookup::Done(0);
    }
    Lookup::Walk
}

/// The simulation thread's TLS block after a walk of the threads. What the walk finds is kept,
/// 0 included; where no walk is possible, the kept block stays.
pub fn sim_tls_block_walked(
    s: &mut Roots,
    m: &mut Memory,
    sim_base: u64,
    tebs: &Option<Vec<u64>>,
) -> (r: u64)
    ensures
        match (tls_number(old(m)@, sim_base), *tebs) {
            (Some(idx), Some(t)) => {
                &&& r == first_block(old(m)@, idx, t@, 0)
                &&& *final(s) == (Roots { tls_block: r, ..*old(s) })
            },
            _ => r == 0 && *final(s) == *old(s),
        },
        final(m)@ == old(m)@,
{
    let idx = match tls_index(m, sim_base) {
        Some(i) => i,
        None => return 0,
    };
    let list = match tebs {
        Some(t) => t,
        None => return 0,
    };
    let mut found: u64 = 0;
    let mut i: usize = 0;
    while i < list.len() && found == 0
        invariant
            i <= list.len(),
            m@ == old(m)@,
            *s == *old(s),
            first_block(m@, idx, list@, 0) == if found != 0 {
                found
            } else {
                first_block(m@, idx, list@, i as int)
            },
        decreases list.len() - i,
    {
        let b = read_thread_tls_block(m, list[i], idx);
        if b != 0 && is_sim_tls_block(m, b) {
            found = b;
        }
        i += 1;
    }
    s.tls_block = found;
    found
}

/// The clock, without throttling: the kept one while it looks right, else a walk is due.
pub fn resolve_now(s: &Roots, m: &mut Memory) -> (r: Lookup)
    ensures
        r == if s.game_time != 0 && game_time_like(old(m)@, s.game_time) {
            Lookup::Done(s.game_time)
        } else {
            Lookup::Walk
        },
        final(m)@ == old(m)@,
{
    if s.game_time != 0 && looks_like_game_time(m, s.game_time) {
        return Lookup::Done(s.game_time);
    }
    Lookup::Walk
}

/// The clock after an unthrottled walk. A walk that finds nothing leaves the kept one.
pub fn resolve_now_walked(
    s: &mut Roots,
    m: &mut Memory,
    sim_base: u64,
    tebs: &Option<Vec<u64>>,
) -> (r: u64)
    ensures
        r == walk_slot(old(m)@, sim_base, *tebs, GTG_TLS_SLOT, Wanted::GameTime),
        *final(s) == (Roots {
            game_time: if r != 0 {
                r
            } else {
                old(s).game_time
            },
            ..*old(s)
        }),
        final(m)@ == old(m)@,
{
    let found = scan_slot(m, sim_base, tebs, GTG_TLS_SLOT, Wanted::GameTime);
    if found != 0 {
        s.game_time = found;
    }
    found
}

/// The clock: kept while it looks right, else looked for on every 30th request. The counter is
/// shared with the game globals.
pub fn ptr(s: &mut Roots, m: &mut Memory) -> (r: Lookup)
    ensures
        ({
            let good = old(s).game_time != 0 && game_time_like(old(m)@, old(s).game_time);
            let (found, tick) = looked_up(good, old(s).game_time, old(s).scan_tick);
            &&& r == found
            &&& *final(s) == (Roots { scan_tick: tick, ..*old(s) })
        }),
        final(m)@ == old(m)@,
{
    if s.game_time != 0 && looks_like_game_time(m, s.game_time) {
        return Lookup::Done(s.game_time);
    }
    let tick = s.scan_tick;
    s.scan_tick = tick.wrapping_add(1);
    if tick % SCAN_EVERY != 0 {
        return Lookup::Done(0);
    }
    Lookup::Walk
}

/// The clock after a throttled walk. What the walk finds is kept, 0 included.
pub fn ptr_walked(s: &mut Roots, m: &mut Memory, sim_base: u64, tebs: &Option<Vec<u64>>) -> (r: u64)
    ensures
        r == walk_slot(old(m)@, sim_base, *tebs, GTG_TLS_SLOT, Wanted::GameTime),
        *final(s) == (Roots { game_time: r, ..*old(s) }),
        final(m)@ == old(m)@,
{
    let found = scan_slot(m, sim_base, tebs, GTG_TLS_SLOT, Wanted::GameTime);
    s.game_time = found;
    found
}

/// A walk hands back nothing, or a block that looks like what was wanted: it is never used
/// unchecked.
pub proof fn law_walk_fits(
    m: Bytes,
    idx: u32,
    tebs: Seq<u64>,
    slot: u64,
    w: Wanted,
    i: int,
)
    ensures
        first_slot(m, idx, tebs, slot, w, i) == 0 || fits(
            m,
            w,
            first_slot(m, idx, tebs, slot, w, i),
        ),
        first_block(m, idx, tebs, i) == 0 || sim_block(m, first_block(m, idx, tebs, i)),
    decreases tebs.len() - i,
{
    if i < tebs.len() {
        law_walk_fits(m, idx, tebs, slot, w, i + 1);
    }
}

/// While a root is missing, 29 of 30 requests in a row are answered without a walk.
pub proof fn law_walks_are_rare(tick: u64, k: int)
    requires
        tick + 30 <= u64::MAX,
        throttled(tick) is Walk,
        0 < k < 30,
    ensures
        throttled((tick + k) as u64) == Lookup::Done(0),
        throttled((tick + 30) as u64) is Walk,
{
}

/// What is taken for the game's clock: a tick rate from 24 to 240, a tick length above 0 and below
/// a half, from 100 to below half a milliard ticks, and a speed above 0 and below 1000.
pub proof fn law_clock_told(m: Bytes, t: u64, rate: i16, length: u32, ticks: i32, speed: u32)
    requires
        i16_at(m, off(t, 0x06)) == Some(rate),
        u32_at(m, off(t, 0x08)) == Some(length),
        i32_at(m, off(t, 0x0c)) == Some(ticks),
        u32_at(m, off(t, 0x10)) == Some(speed),
    ensures
        game_time_like(m, t) <==> {
            &&& 0x1_0000 <= t < 0x8000_0000_0000
            &&& 24 <= rate <= 240
            &&& less32(0, length) && less32(length, 0x3f00_0000)
            &&& 100 <= ticks < 500_000_000
            &&& less32(0, speed) && less32(speed, 0x447a_0000)
        },
{
}

/// What is taken for the game's globals: the byte at 16 is 1 or 2.
pub proof fn law_globals_told(m: Bytes, b: u64, s: u8)
    requires
        u8_at(m, off(b, 16)) == Some(s),
    ensures
        game_globals_like(m, b) <==> 0x1_0000 <= b < 0x8000_0000_0000 && (s == 1 || s == 2),
{
}

/// A kept address that looks right is handed out and costs no request. Without one, 0 is handed
/// out and the request is counted, but for one of every 30 requests, on which a walk is due.
pub proof fn law_requests(kept: u64, tick: u64)
    requires
        tick < u64::MAX,
    ensures
        looked_up(true, kept, tick) == (Lookup::Done(kept), tick),
        looked_up(false, kept, tick).1 == tick + 1,
        tick as int % 30 == 0 ==> looked_up(false, kept, tick).0 is Walk,
        tick as int % 30 != 0 ==> looked_up(false, kept, tick).0 == Lookup::Done(0),
{
}

/// The number of the simulation's thread storage is read at 0xd72730 of the simulation.
pub proof fn law_storage_number(m: Bytes, sim_base: u64)
    ensures
        sim_base != 0 ==> tls_number(m, sim_base) == u32_at(m, off(sim_base, 0xd7_2730)),
        tls_number(m, 0) is None,
{
}

/// A thread's block is the entry with that number of the array that the thread keeps at 0x58.
pub proof fn law_thread_blocks(m: Bytes, teb: u64, idx: u32, p: u64, block: u64)
    requires
        teb != 0,
        link(m, off(teb, 0x58)) == Some(p),
        u64_at(m, elem(p, idx as int, 8)) == Some(block),
    ensures
        thread_block(m, teb, idx) == block,
        thread_block(m, 0, idx) == 0,
{
}

/// A walk comes up with the first thread that fits: no thread before it does.
pub proof fn law_first_thread(
    m: Bytes,
    idx: u32,
    tebs: Seq<u64>,
    slot: u64,
    w: Wanted,
    k: int,
    i: int,
)
    requires
        0 <= i <= k < tebs.len(),
        thread_slot(m, tebs[k], idx, slot) != 0,
        fits(m, w, thread_slot(m, tebs[k], idx, slot)),
        forall|j: int|
            i <= j < k ==> thread_slot(m, #[trigger] tebs[j], idx, slot) == 0 || !fits(
                m,
                w,
                thread_slot(m, tebs[j], idx, slot),
            ),
    ensures
        first_slot(m, idx, tebs, slot, w, i) == thread_slot(m, tebs[k], idx, slot),
    decreases k - i,
{
    if i < k {
        law_first_thread(m, idx, tebs, slot, w, k, i + 1);
    }
}

} // verus!
