//! Patches of the simulation's code and constants.

use vstd::prelude::*;

use crate::ieee::{abs32, magnitude32, neg32, negated32};
use crate::memory::{Bytes, Memory, off, store32, u32_at, u8_at};

verus! {

pub const TEAM_SYNC_PATCH_RVA: u64 = 0x0018_2d31;

pub const JE: u8 = 0x74;

pub const JMP: u8 = 0xeb;

pub const TURN_CLAMP_POS_RVA: u64 = 0x8f2be8; // float, greatest turn rate

pub const TURN_CLAMP_NEG_RVA: u64 = 0x8f317c; // float, least turn rate

/// The jump that guards the team copy before and after a patch.
pub open spec fn team_sync_bytes(disable: bool) -> (u8, u8) {
    if disable {
        (JE, JMP)
    } else {
        (JMP, JE)
    }
}

/// The guard holds the byte that the patch expects.
pub open spec fn team_sync_patchable(m: Bytes, sim_base: u64, disable: bool) -> bool {
    sim_base != 0 && u8_at(m, off(sim_base, TEAM_SYNC_PATCH_RVA)) == Some(
        team_sync_bytes(disable).0,
    )
}

/// Memory after the team copy is disabled or restored.
pub open spec fn team_sync_patched(m: Bytes, sim_base: u64, disable: bool) -> Bytes {
    if team_sync_patchable(m, sim_base, disable) {
        m.insert(off(sim_base, TEAM_SYNC_PATCH_RVA), team_sync_bytes(disable).1)
    } else {
        m
    }
}

/// Disable or restore the copy of the player's team into the controlled unit, by turning the
/// conditional jump around it into an unconditional one and back. Any other byte is left alone.
/// Returns whether the byte was flipped.
pub fn patch_team_sync(m: &mut Memory, sim_base: u64, disable: bool) -> (r: bool)
    ensures
        r == team_sync_patchable(old(m)@, sim_base, disable),
        final(m)@ == team_sync_patched(old(m)@, sim_base, disable),
{
    if sim_base == 0 {
        return false;
    }
    let a = sim_base.wrapping_add(TEAM_SYNC_PATCH_RVA);
    let (from, to) = if disable {
        (JE, JMP)
    } else {
        (JMP, JE)
    };
    match m.read_u8(a) {
        None => false,
        Some(v) => if v != from {
            false
        } else {
            m.write_u8(a, to)
        },
    }
}

/// Disabling the team copy and restoring it puts the code back as it was; disabling it twice is
/// the same as disabling it once.
pub proof fn law_team_sync_restored(m: Bytes, sim_base: u64)
    requires
        team_sync_patchable(m, sim_base, true),
    ensures
        team_sync_patched(team_sync_patched(m, sim_base, true), sim_base, false) == m,
        team_sync_patched(team_sync_patched(m, sim_base, true), sim_base, true)
            == team_sync_patched(m, sim_base, true),
{
    assert(team_sync_patched(team_sync_patched(m, sim_base, true), sim_base, false) =~= m);
}

/// Memory after both limits of the turn rate become `v` and `-v`.
pub open spec fn clamp_set(m: Bytes, sim_base: u64, v: u32) -> Bytes {
    store32(
        store32(m, off(sim_base, TURN_CLAMP_POS_RVA), v),
        off(sim_base, TURN_CLAMP_NEG_RVA),
        negated32(v),
    )
}

fn write_clamp(m: &mut Memory, sim_base: u64, v: u32)
    ensures
        final(m)@ == clamp_set(old(m)@, sim_base, v),
{
    m.write_u32(sim_base.wrapping_add(TURN_CLAMP_POS_RVA), v);
    m.write_u32(sim_base.wrapping_add(TURN_CLAMP_NEG_RVA), neg32(v));
}

/// Widen the turn rate of bipeds to `rad_per_s`. `saved` keeps the stock rate from the first
/// call on; 0 means that none is kept. Without a rate to keep, a fault leaves everything as it
/// is.
pub fn set_turn_clamp(saved: &mut u32, m: &mut Memory, sim_base: u64, rad_per_s: u32)
    ensures
        ({
            let stock = u32_at(old(m)@, off(sim_base, TURN_CLAMP_POS_RVA));
            let stop = sim_base == 0 || (*old(saved) == 0 && stock is None);
            &&& *final(saved) == if stop || *old(saved) != 0 {
                *old(saved)
            } else {
                stock->0
            }
            &&& final(m)@ == if stop {
                old(m)@
            } else {
                clamp_set(old(m)@, sim_base, magnitude32(rad_per_s))
            }
        }),
{
    if sim_base == 0 {
        return;
    }
    if *saved == 0 {
        match m.read_u32(sim_base.wrapping_add(TURN_CLAMP_POS_RVA)) {
            None => return,
            Some(v) => {
                *saved = v;
            },
        }
    }
    write_clamp(m, sim_base, abs32(rad_per_s));
}

/// Put the stock turn rate back. It is forgotten in any case.
pub fn restore_turn_clamp(saved: &mut u32, m: &mut Memory, sim_base: u64)
    ensures
        *final(saved) == 0,
        final(m)@ == if *old(saved) == 0 || sim_base == 0 {
            old(m)@
        } else {
            clamp_set(old(m)@, sim_base, *old(saved))
        },
{
    let v = *saved;
    *saved = 0;
    if v == 0 || sim_base == 0 {
        return;
    }
    write_clamp(m, sim_base, v);
}

/// Widening the turn rate, any number of times, and restoring it puts memory back as it was, if
/// the two limits were opposite to begin with.
pub proof fn law_turn_clamp_restored(m: Bytes, sim_base: u64, v: u32, w: u32)
    requires
        u32_at(m, off(sim_base, TURN_CLAMP_POS_RVA)) == Some(w),
        u32_at(m, off(sim_base, TURN_CLAMP_NEG_RVA)) == Some(negated32(w)),
    ensures
        clamp_set(clamp_set(m, sim_base, v), sim_base, w) == m,
{
    let p = off(sim_base, TURN_CLAMP_POS_RVA);
    let n = off(sim_base, TURN_CLAMP_NEG_RVA);
    let m1 = crate::memory::put32(m, p, v);
    let m2 = crate::memory::put32(m1, n, negated32(v));
    crate::memory::lemma_put32_frame(m, p, v);
    crate::memory::lemma_apart(n, 4, p, 4);
    crate::memory::lemma_agree32(m, m1, n);
    crate::memory::lemma_put32_frame(m1, n, negated32(v));
    crate::memory::lemma_apart(p, 4, n, 4);
    crate::memory::lemma_agree32(m1, m2, p);
    let m3 = crate::memory::put32(m2, p, w);
    crate::memory::lemma_put32_frame(m2, p, w);
    crate::memory::lemma_agree32(m2, m3, n);
    assert(m3 =~= crate::memory::put32(crate::memory::put32(m1, p, w), n, negated32(v))) by {
        reveal(crate::memory::put32);
        reveal(crate::memory::put16);
    }
    crate::memory::lemma_restore32(m, p, v, w);
    crate::memory::lemma_restore32(m, n, negated32(v), negated32(w));
}

/// Disabling the team's synchronisation makes its conditional jump unconditional: the byte 0x74
/// becomes 0xeb, and enabling it turns 0xeb back. Any other byte is left alone.
pub proof fn law_team_sync_bytes(m: Bytes, sim_base: u64, disable: bool, v: u8)
    requires
        sim_base != 0,
        u8_at(m, off(sim_base, 0x18_2d31)) == Some(v),
    ensures
        ({
            let n = u8_at(team_sync_patched(m, sim_base, disable), off(sim_base, 0x18_2d31));
            &&& disable && v == 0x74 ==> n == Some(0xebu8)
            &&& !disable && v == 0xeb ==> n == Some(0x74u8)
            &&& disable && v != 0x74 ==> team_sync_patched(m, sim_base, disable) == m
            &&& !disable && v != 0xeb ==> team_sync_patched(m, sim_base, disable) == m
        }),
{
}

/// Widening the turn rate sets the upper limit to the rate and the lower limit to its opposite.
pub proof fn law_turn_limits(m: Bytes, sim_base: u64, v: u32)
    requires
        u32_at(m, off(sim_base, 0x8f_2be8)) is Some,
        u32_at(m, off(sim_base, 0x8f_317c)) is Some,
    ensures
        u32_at(clamp_set(m, sim_base, v), off(sim_base, 0x8f_2be8)) == Some(v),
        u32_at(clamp_set(m, sim_base, v), off(sim_base, 0x8f_317c)) == Some(negated32(v)),
{
    let a = off(sim_base, TURN_CLAMP_POS_RVA);
    let b = off(sim_base, TURN_CLAMP_NEG_RVA);
    let m1 = store32(m, a, v);
    crate::memory::lemma_put32_frame(m, a, v);
    assert(crate::memory::apart(a, 4, b, 4));
    crate::memory::lemma_apart(b, 4, a, 4);
    crate::memory::lemma_agree32(m1, m, b);
    crate::memory::lemma_put32_frame(m1, b, negated32(v));
    let n = store32(m1, b, negated32(v));
    crate::memory::lemma_apart(a, 4, b, 4);
    crate::memory::lemma_agree32(n, m1, a);
}

} // verus!
