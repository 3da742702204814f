//! The game globals: mission state, active streaming clusters, skulls and night vision.

use vstd::prelude::*;

use crate::memory::{Bytes, Memory, elem, elem_addr, off, put64, u32_at, u64_at, u8_at};

verus! {

pub const GG_ACTIVE: u64 = 0x10; // u8

pub const GG_WON: u64 = 0x1ebd4; // u8

pub const GG_SKULLS: u64 = 0x1ebe0; // u64

pub const GG_SEED_MASK_A: u64 = 0x1ebf4;

pub const GG_SEED_MASK_B: u64 = 0x1eff4;

pub const GG_ACTIVE_MASK: u64 = 0x1f3f4; // 0x100 words

pub const EFFECTS_RVA: u64 = 0x02c0_c978; // player-effect accumulators

pub const NIGHT_VISION_BIT: u64 = 0x100_0000_0000; // bit 40

/// The mission's gate byte and its won byte.
pub open spec fn mission_bytes(m: Bytes, gg: u64) -> Option<(u8, u8)> {
    match (u8_at(m, off(gg, GG_ACTIVE)), u8_at(m, off(gg, GG_WON))) {
        (Some(gate), Some(won)) if gg != 0 => Some((gate, won)),
        _ => None,
    }
}

/// Whether the scenario is still active: its gate byte and its won byte (`None` once it has
/// been torn down).
pub fn mission_state(m: &mut Memory, gg: u64) -> (r: Option<(u8, u8)>)
    ensures
        r == mission_bytes(old(m)@, gg),
        final(m)@ == old(m)@,
{
    if gg == 0 {
        return None;
    }
    let gate = m.read_u8(gg.wrapping_add(GG_ACTIVE))?;
    let won = m.read_u8(gg.wrapping_add(GG_WON))?;
    Some((gate, won))
}

/// How many bits of `v` are set.
pub open spec fn ones(v: nat) -> nat
    decreases v,
{
    if v == 0 {
        0
    } else {
        v % 2 + ones(v / 2)
    }
}

/// How many bits are set in the first `n` words at `a`: `None` if one of them faults.
pub open spec fn ones_at(m: Bytes, a: u64, n: nat) -> Option<nat>
    decreases n,
{
    if n == 0 {
        Some(0)
    } else {
        match (ones_at(m, a, (n - 1) as nat), u32_at(m, elem(a, n - 1, 4))) {
            (Some(sum), Some(w)) => Some(sum + ones(w as nat)),
            _ => None,
        }
    }
}

fn count_ones(v: u32) -> (r: u32)
    ensures
        r == ones(v as nat),
        r <= 32,
{
    let mut left: u32 = v;
    let mut sum: u32 = 0;
    let mut room: u32 = 32;
    let ghost mut bound: nat = 0x1_0000_0000;
    proof {
        vstd::arithmetic::power2::lemma2_to64();
    }
    while left > 0
        invariant
            ones(v as nat) == sum + ones(left as nat),
            left < bound,
            room <= 32,
            sum + room <= 32,
            bound == vstd::arithmetic::power2::pow2(room as nat),
        decreases left,
    {
        proof {
            if room == 0 {
                vstd::arithmetic::power2::lemma2_to64();
            } else {
                vstd::arithmetic::power2::lemma_pow2_unfold(room as nat);
                bound = vstd::arithmetic::power2::pow2((room - 1) as nat);
            }
        }
        sum += left % 2;
        left /= 2;
        room -= 1;
    }
    sum
}

/// How many streaming clusters are active, and the first word of either seed mask.
pub open spec fn cluster_counts(m: Bytes, gg: u64) -> Option<(nat, u32, u32)> {
    match (
        ones_at(m, off(gg, GG_ACTIVE_MASK), 0x100),
        u32_at(m, off(gg, GG_SEED_MASK_A)),
        u32_at(m, off(gg, GG_SEED_MASK_B)),
    ) {
        (Some(sum), Some(a), Some(b)) if gg != 0 => Some((sum, a, b)),
        _ => None,
    }
}

/// How many streaming clusters are active, and the first word of either seed mask (`None` while
/// the game globals are not resolved).
pub fn active_cluster_popcount(m: &mut Memory, gg: u64) -> (r: Option<(u32, u32, u32)>)
    ensures
        match cluster_counts(old(m)@, gg) {
            Some((sum, a, b)) => r == Some((sum as u32, a, b)) && sum <= 0x2000,
            None => r is None,
        },
        final(m)@ == old(m)@,
{
    if gg == 0 {
        return None;
    }
    let c = gg.wrapping_add(GG_ACTIVE_MASK);
    let mut pop: u32 = 0;
    let mut i: u32 = 0;
    while i < 0x100
        invariant
            i <= 0x100,
            m@ == old(m)@,
            gg != 0,
            c == off(gg, GG_ACTIVE_MASK),
            ones_at(m@, c, i as nat) == Some(pop as nat),
            pop <= 32 * i,
        decreases 0x100 - i,
    {
        match m.read_u32(elem_addr(c, i as u64, 4)) {
            None => {
                proof {
                    lemma_ones_fault(m@, c, i as nat + 1, 0x100);
                }
                return None;
            },
            Some(w) => {
                pop += count_ones(w);
            },
        }
        i += 1;
    }
    let a = m.read_u32(gg.wrapping_add(GG_SEED_MASK_A))?;
    let b = m.read_u32(gg.wrapping_add(GG_SEED_MASK_B))?;
    Some((pop, a, b))
}

proof fn lemma_ones_fault(m: Bytes, a: u64, k: nat, n: nat)
    requires
        k <= n,
        ones_at(m, a, k) is None,
    ensures
        ones_at(m, a, n) is None,
    decreases n,
{
    if k < n {
        lemma_ones_fault(m, a, k, (n - 1) as nat);
    }
}

/// A word with a bit of `mask` set or cleared.
pub open spec fn bit_set(v: u64, mask: u64, on: bool) -> u64 {
    if on {
        v | mask
    } else {
        v & !mask
    }
}

fn with_bit(v: u64, mask: u64, on: bool) -> (r: u64)
    ensures
        r == bit_set(v, mask, on),
{
    if on {
        v | mask
    } else {
        v & !mask
    }
}

/// Memory after the bits of `mask` are set or cleared in the 64-bit word at `a`, which a fault
/// leaves as it is.
pub open spec fn word_bits(m: Bytes, a: u64, mask: u64, on: bool) -> Bytes {
    match u64_at(m, a) {
        None => m,
        Some(v) => put64(m, a, bit_set(v, mask, on)),
    }
}

fn change_bits(m: &mut Memory, a: u64, mask: u64, on: bool) -> (r: bool)
    ensures
        r == (u64_at(old(m)@, a) is Some),
        final(m)@ == word_bits(old(m)@, a, mask, on),
{
    match m.read_u64(a) {
        None => false,
        Some(v) => m.write_u64(a, with_bit(v, mask, on)),
    }
}

/// Memory after the global skull set is changed for night vision.
pub open spec fn nv_global(m: Bytes, gg: u64, on: bool) -> Bytes {
    if gg == 0 {
        m
    } else {
        word_bits(m, off(gg, GG_SKULLS), NIGHT_VISION_BIT, on)
    }
}

/// The effect accumulator of player 0: 0 if it cannot be resolved.
pub open spec fn effect_slot(m: Bytes, sim_base: u64) -> u64 {
    if sim_base == 0 {
        0
    } else {
        match u64_at(m, off(sim_base, EFFECTS_RVA)) {
            Some(base) if base > 0x1_0000 => match u64_at(m, off(base, 8)) {
                Some(slot) if slot > 0x1_0000 => slot,
                _ => 0,
            },
            _ => 0,
        }
    }
}

/// Memory after the effect accumulator of player 0 is changed for night vision. Both of its
/// words are read before either is written.
pub open spec fn nv_effects(m: Bytes, sim_base: u64, on: bool) -> Bytes {
    let slot = effect_slot(m, sim_base);
    match (u64_at(m, off(slot, 0x8980)), u64_at(m, off(slot, 0x8988))) {
        (Some(a), Some(b)) if slot != 0 => put64(
            put64(m, off(slot, 0x8980), bit_set(a, NIGHT_VISION_BIT, on)),
            off(slot, 0x8988),
            bit_set(b, NIGHT_VISION_BIT, on),
        ),
        _ => m,
    }
}

fn find_effect_slot(m: &mut Memory, sim_base: u64) -> (r: u64)
    ensures
        r == effect_slot(old(m)@, sim_base),
        final(m)@ == old(m)@,
{
    if sim_base == 0 {
        return 0;
    }
    match m.read_u64(sim_base.wrapping_add(EFFECTS_RVA)) {
        None => 0,
        Some(base) => if base > 0x1_0000 {
            match m.read_u64(base.wrapping_add(8)) {
                None => 0,
                Some(slot) => if slot > 0x1_0000 {
                    slot
                } else {
                    0
                },
            }
        } else {
            0
        },
    }
}

/// Switch night vision in all three places that hold it: the global skull set, and the two
/// words of player 0's effect accumulator. True if the game globals were resolved and written.
pub fn set_night_vision(m: &mut Memory, gg: u64, sim_base: u64, on: bool) -> (r: bool)
    ensures
        final(m)@ == nv_effects(nv_global(old(m)@, gg, on), sim_base, on),
        r == (gg != 0 && u64_at(old(m)@, off(gg, GG_SKULLS)) is Some),
{
    let done = gg != 0 && change_bits(m, gg.wrapping_add(GG_SKULLS), NIGHT_VISION_BIT, on);
    let slot = find_effect_slot(m, sim_base);
    if slot != 0 {
        let a = m.read_u64(slot.wrapping_add(0x8980));
        let b = m.read_u64(slot.wrapping_add(0x8988));
        if let (Some(a), Some(b)) = (a, b) {
            m.write_u64(slot.wrapping_add(0x8980), with_bit(a, NIGHT_VISION_BIT, on));
            proof {
                let m0 = nv_global(old(m)@, gg, on);
                let v = bit_set(a, NIGHT_VISION_BIT, on);
                crate::memory::lemma_put64_frame(m0, off(slot, 0x8980), v);
                crate::memory::lemma_apart(off(slot, 0x8988), 8, off(slot, 0x8980), 8);
                crate::memory::lemma_agree64(
                    m0,
                    put64(m0, off(slot, 0x8980), v),
                    off(slot, 0x8988),
                );
            }
            m.write_u64(slot.wrapping_add(0x8988), with_bit(b, NIGHT_VISION_BIT, on));
        }
    }
    done
}

/// Setting or clearing a bit does that and leaves the other bits alone.
pub proof fn law_bit_set(v: u64, mask: u64, on: bool)
    ensures
        bit_set(v, mask, on) & mask == if on {
            mask
        } else {
            0
        },
        bit_set(v, mask, on) & !mask == v & !mask,
{
    assert((v | mask) & mask == mask && (v & !mask) & mask == 0 && (v | mask) & !mask == v & !mask
        && (v & !mask) & !mask == v & !mask) by (bit_vector);
}

/// Switching night vision off clears its bit in the global skull set and leaves the other
/// skulls as they are; switching it on sets the bit.
pub proof fn law_night_vision_global(m: Bytes, gg: u64, on: bool)
    requires
        gg != 0,
        u64_at(m, off(gg, GG_SKULLS)) is Some,
    ensures
        ({
            let before = u64_at(m, off(gg, GG_SKULLS))->0;
            let after = u64_at(nv_global(m, gg, on), off(gg, GG_SKULLS));
            &&& after is Some
            &&& (after->0) & NIGHT_VISION_BIT == if on {
                NIGHT_VISION_BIT
            } else {
                0
            }
            &&& (after->0) & !NIGHT_VISION_BIT == before & !NIGHT_VISION_BIT
        }),
{
    let a = off(gg, GG_SKULLS);
    let v = u64_at(m, a)->0;
    crate::memory::lemma_put64_frame(m, a, bit_set(v, NIGHT_VISION_BIT, on));
    law_bit_set(v, NIGHT_VISION_BIT, on);
}

/// The same for both words of player 0's effect accumulator.
pub proof fn law_night_vision_effects(m: Bytes, sim_base: u64, on: bool)
    requires
        effect_slot(m, sim_base) != 0,
        u64_at(m, off(effect_slot(m, sim_base), 0x8980)) is Some,
        u64_at(m, off(effect_slot(m, sim_base), 0x8988)) is Some,
    ensures
        ({
            let s = effect_slot(m, sim_base);
            let m1 = nv_effects(m, sim_base, on);
            forall|o: u64|
                o == 0x8980 || o == 0x8988 ==> {
                    let before = u64_at(m, off(s, o))->0;
                    let after = #[trigger] u64_at(m1, off(s, o));
                    &&& after is Some
                    &&& (after->0) & NIGHT_VISION_BIT == if on {
                        NIGHT_VISION_BIT
                    } else {
                        0
                    }
                    &&& (after->0) & !NIGHT_VISION_BIT == before & !NIGHT_VISION_BIT
                }
        }),
{
    let s = effect_slot(m, sim_base);
    let (pa, pb) = (off(s, 0x8980), off(s, 0x8988));
    let (a, b) = (u64_at(m, pa)->0, u64_at(m, pb)->0);
    let m1 = put64(m, pa, bit_set(a, NIGHT_VISION_BIT, on));
    let m2 = put64(m1, pb, bit_set(b, NIGHT_VISION_BIT, on));
    crate::memory::lemma_put64_frame(m, pa, bit_set(a, NIGHT_VISION_BIT, on));
    crate::memory::lemma_put64_frame(m1, pb, bit_set(b, NIGHT_VISION_BIT, on));
    crate::memory::lemma_apart(pa, 8, pb, 8);
    crate::memory::lemma_agree64(m1, m2, pa);
    law_bit_set(a, NIGHT_VISION_BIT, on);
    law_bit_set(b, NIGHT_VISION_BIT, on);
}

/// Memory after one skull of the global skull set is set or cleared.
pub open spec fn skull_set(m: Bytes, gg: u64, bit: u8, on: bool) -> Bytes {
    if gg == 0 {
        m
    } else {
        word_bits(m, off(gg, GG_SKULLS), 1u64 << bit, on)
    }
}

/// Set or clear one skull in the global skull set. True if the write landed.
pub fn set_sim_skull(m: &mut Memory, gg: u64, bit: u8, on: bool) -> (r: bool)
    requires
        bit < 64,
    ensures
        r == (gg != 0 && u64_at(old(m)@, off(gg, GG_SKULLS)) is Some),
        final(m)@ == skull_set(old(m)@, gg, bit, on),
{
    if gg == 0 {
        return false;
    }
    change_bits(m, gg.wrapping_add(GG_SKULLS), 1u64 << bit, on)
}

/// Night vision is bit 40, of the skulls in the game's globals and of both words of the effects.
pub proof fn law_night_vision_bit(m: Bytes, gg: u64, sim_base: u64, v: u64)
    ensures
        gg != 0 && u64_at(m, off(gg, 0x1_ebe0)) == Some(v) ==> nv_global(m, gg, true) == put64(
            m,
            off(gg, 0x1_ebe0),
            v | 0x100_0000_0000,
        ) && nv_global(m, gg, false) == put64(m, off(gg, 0x1_ebe0), v & !0x100_0000_0000u64),
        gg == 0 ==> nv_global(m, gg, true) == m && nv_global(m, gg, false) == m,
        effect_slot(m, 0) == 0,
{
}

/// How many bits are set: those of the lower half of a number and those of the upper half.
pub proof fn law_ones_count(v: nat)
    ensures
        ones(0) == 0,
        ones(2 * v) == ones(v),
        ones(2 * v + 1) == ones(v) + 1,
{
    if v > 0 {
        assert((2 * v) % 2 == 0 && (2 * v) / 2 == v);
    }
    assert((2 * v + 1) % 2 == 1 && (2 * v + 1) / 2 == v);
}

/// The mission's two bytes are read of the globals: whether it runs, and whether it is won.
pub proof fn law_mission_bytes(m: Bytes, gg: u64, gate: u8, won: u8)
    requires
        u8_at(m, off(gg, 0x10)) == Some(gate),
        u8_at(m, off(gg, 0x1_ebd4)) == Some(won),
    ensures
        gg != 0 ==> mission_bytes(m, gg) == Some((gate, won)),
        gg == 0 ==> mission_bytes(m, gg) is None,
{
}

/// Setting or clearing a skull changes its own bit of the skull set and no other.
pub proof fn law_skull_bit(m: Bytes, gg: u64, bit: u8, on: bool, v: u64)
    requires
        gg != 0,
        bit < 64,
        u64_at(m, off(gg, 0x1_ebe0)) == Some(v),
    ensures
        u64_at(skull_set(m, gg, bit, on), off(gg, 0x1_ebe0)) matches Some(n) && n & (1u64 << bit)
            == (if on {
            1u64 << bit
        } else {
            0
        }) && n & !(1u64 << bit) == v & !(1u64 << bit),
{
    let mask = 1u64 << bit;
    law_bit_set(v, mask, on);
    crate::memory::lemma_put64_frame(m, off(gg, GG_SKULLS), bit_set(v, mask, on));
}

/// The active clusters are counted in the 256 words from 0x1f3f4 of the globals on; the two seed
/// masks begin at 0x1ebf4 and 0x1eff4.
pub proof fn law_cluster_masks(m: Bytes, gg: u64)
    ensures
        cluster_counts(m, gg) matches Some((sum, a, b)) ==> {
            &&& ones_at(m, off(gg, 0x1_f3f4), 256) == Some(sum)
            &&& u32_at(m, off(gg, 0x1_ebf4)) == Some(a)
            &&& u32_at(m, off(gg, 0x1_eff4)) == Some(b)
        },
        cluster_counts(m, 0) is None,
{
}

/// The effects are found through the pointer at 0x2c0c978 of the simulation and the one 8 bytes
/// behind where it leads, both above the lowest 64 KiB.
pub proof fn law_effects_found(m: Bytes, sim_base: u64, a: u64, b: u64)
    requires
        sim_base != 0,
        u64_at(m, off(sim_base, 0x2c0_c978)) == Some(a),
        u64_at(m, off(a, 8)) == Some(b),
    ensures
        effect_slot(m, sim_base) == if a > 65536 && b > 65536 {
            b
        } else {
            0
        },
{
}

} // verus!
