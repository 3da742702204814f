//! The simulation's clock.

use vstd::prelude::*;

use super::lookup::{GTG_GAME_SPEED, GTG_TICK_LENGTH, GTG_TICK_RATE};
use crate::ieee::{finite32, is_finite32};
use crate::memory::{Bytes, Memory, i16_at, lemma_put32_frame, off, put32, u32_at};

verus! {

/// The tick rate, the tick length and the game speed of the clock at `t`.
pub open spec fn clock_fields(m: Bytes, t: u64) -> Option<(i16, u32, u32)> {
    if t == 0 {
        None
    } else {
        match (
            i16_at(m, off(t, GTG_TICK_RATE)),
            u32_at(m, off(t, GTG_TICK_LENGTH)),
            u32_at(m, off(t, GTG_GAME_SPEED)),
        ) {
            (Some(rate), Some(length), Some(speed)) => Some((rate, length, speed)),
            _ => None,
        }
    }
}

/// Read the tick rate, the tick length and the game speed (`None` if the clock is not
/// resolved).
pub fn read(m: &mut Memory, t: u64) -> (r: Option<(i16, u32, u32)>)
    ensures
        r == clock_fields(old(m)@, t),
        final(m)@ == old(m)@,
{
    if t == 0 {
        return None;
    }
    let rate = m.read_i16(t.wrapping_add(GTG_TICK_RATE))?;
    let length = m.read_u32(t.wrapping_add(GTG_TICK_LENGTH))?;
    let speed = m.read_u32(t.wrapping_add(GTG_GAME_SPEED))?;
    Some((rate, length, speed))
}

/// Memory after a time scale is applied, and whether it was.
pub open spec fn applied(m: Bytes, t: u64, scale: u32, stock: u32) -> (Bytes, bool) {
    match i16_at(m, off(t, GTG_TICK_RATE)) {
        Some(rate) if t != 0 && rate >= 1 => if u32_at(m, off(t, GTG_TICK_LENGTH)) is None {
            (m, false)
        } else {
            let m1 = put32(m, off(t, GTG_TICK_LENGTH), stock);
            if u32_at(m1, off(t, GTG_GAME_SPEED)) is None {
                (m1, false)
            } else {
                (put32(m1, off(t, GTG_GAME_SPEED), scale), true)
            }
        },
        _ => (m, false),
    }
}

/// Apply a uniform time scale: the tick length goes to `stock`, one over the tick rate, and the
/// game speed to `scale`. The speed is the only scaler; a scaled tick length would part
/// animation from motion and outlive a restart. True if both writes landed.
pub fn apply(m: &mut Memory, t: u64, scale: u32, stock: u32) -> (r: bool)
    ensures
        (final(m)@, r) == applied(old(m)@, t, scale, stock),
{
    if t == 0 {
        return false;
    }
    match m.read_i16(t.wrapping_add(GTG_TICK_RATE)) {
        Some(rate) => if rate >= 1 {
            m.write_u32(t.wrapping_add(GTG_TICK_LENGTH), stock) && m.write_u32(
                t.wrapping_add(GTG_GAME_SPEED),
                scale,
            )
        } else {
            false
        },
        None => false,
    }
}

/// Memory after the tick length is pinned, and whether the clock was reached.
pub open spec fn pinned(m: Bytes, t: u64, stock: u32, drifted: bool) -> (Bytes, bool) {
    match i16_at(m, off(t, GTG_TICK_RATE)) {
        Some(rate) if t != 0 && rate >= 1 => match u32_at(m, off(t, GTG_TICK_LENGTH)) {
            None => (m, false),
            Some(cur) => if !finite32(cur) || drifted {
                (put32(m, off(t, GTG_TICK_LENGTH), stock), true)
            } else {
                (m, true)
            },
        },
        _ => (m, false),
    }
}

/// Keep the tick length at `stock` without touching the game speed. It is written only where it
/// is not finite or has `drifted`, that is, where it is off by more than a hundredth of `stock`.
/// True if the clock was reached.
pub fn pin_tick_length(m: &mut Memory, t: u64, stock: u32, drifted: bool) -> (r: bool)
    ensures
        (final(m)@, r) == pinned(old(m)@, t, stock, drifted),
{
    if t == 0 {
        return false;
    }
    match m.read_i16(t.wrapping_add(GTG_TICK_RATE)) {
        Some(rate) => if rate >= 1 {
            match m.read_u32(t.wrapping_add(GTG_TICK_LENGTH)) {
                None => false,
                Some(cur) => {
                    if !is_finite32(cur) || drifted {
                        m.write_u32(t.wrapping_add(GTG_TICK_LENGTH), stock);
                    }
                    true
                },
            }
        } else {
            false
        },
        None => false,
    }
}

/// After a time scale was applied, the clock reads back the scale and the stock tick length.
pub proof fn law_apply_reads_back(m: Bytes, t: u64, scale: u32, stock: u32)
    requires
        applied(m, t, scale, stock).1,
    ensures
        clock_fields(applied(m, t, scale, stock).0, t) == Some(
            (i16_at(m, off(t, GTG_TICK_RATE))->0, stock, scale),
        ),
{
    let m1 = put32(m, off(t, GTG_TICK_LENGTH), stock);
    let m2 = put32(m1, off(t, GTG_GAME_SPEED), scale);
    crate::memory::lemma_put32_frame(m, off(t, GTG_TICK_LENGTH), stock);
    crate::memory::lemma_put32_frame(m1, off(t, GTG_GAME_SPEED), scale);
    crate::memory::lemma_apart(off(t, GTG_TICK_RATE), 2, off(t, GTG_TICK_LENGTH), 4);
    crate::memory::lemma_apart(off(t, GTG_TICK_RATE), 2, off(t, GTG_GAME_SPEED), 4);
    crate::memory::lemma_apart(off(t, GTG_TICK_LENGTH), 4, off(t, GTG_GAME_SPEED), 4);
    crate::memory::lemma_agree16(m, m2, off(t, GTG_TICK_RATE));
    crate::memory::lemma_agree32(m1, m2, off(t, GTG_TICK_LENGTH));
}

/// Pinning the tick length leaves the game speed as it is.
pub proof fn law_pin_keeps_speed(m: Bytes, t: u64, stock: u32, drifted: bool)
    ensures
        u32_at(pinned(m, t, stock, drifted).0, off(t, GTG_GAME_SPEED)) == u32_at(
            m,
            off(t, GTG_GAME_SPEED),
        ),
{
    let m1 = put32(m, off(t, GTG_TICK_LENGTH), stock);
    crate::memory::lemma_put32_frame(m, off(t, GTG_TICK_LENGTH), stock);
    crate::memory::lemma_apart(off(t, GTG_GAME_SPEED), 4, off(t, GTG_TICK_LENGTH), 4);
    crate::memory::lemma_agree32(m, m1, off(t, GTG_GAME_SPEED));
}

/// A tick length that is no number, or has drifted, is put back to the stock one; any other stays.
/// Without a clock that runs, nothing is written.
pub proof fn law_pin_outcomes(m: Bytes, t: u64, stock: u32, drifted: bool, rate: i16, cur: u32)
    requires
        t != 0,
        i16_at(m, off(t, 0x06)) == Some(rate),
        u32_at(m, off(t, 0x08)) == Some(cur),
    ensures
        ({
            let (n, held) = pinned(m, t, stock, drifted);
            &&& rate < 1 ==> n == m && !held
            &&& rate >= 1 ==> held
            &&& rate >= 1 && (drifted || !finite32(cur)) ==> u32_at(n, off(t, 0x08)) == Some(stock)
            &&& rate >= 1 && !drifted && finite32(cur) ==> n == m
        }),
        !pinned(m, 0, stock, drifted).1,
{
    lemma_put32_frame(m, off(t, GTG_TICK_LENGTH), stock);
}

/// A time scale goes into the clock's speed, and the stock tick length into its length, where the
/// clock runs; where it does not, nothing is written.
pub proof fn law_apply_outcomes(m: Bytes, t: u64, scale: u32, stock: u32)
    ensures
        applied(m, t, scale, stock).1 ==> u32_at(applied(m, t, scale, stock).0, off(t, 0x10))
            == Some(scale) && u32_at(applied(m, t, scale, stock).0, off(t, 0x08)) == Some(stock),
        t == 0 ==> applied(m, t, scale, stock) == (m, false),
        i16_at(m, off(t, 0x06)) matches Some(rate) && rate < 1 ==> applied(m, t, scale, stock) == (
            m,
            false,
        ),
{
    if applied(m, t, scale, stock).1 {
        law_apply_reads_back(m, t, scale, stock);
    }
}

} // verus!
