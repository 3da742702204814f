//! Module bases and pointer patching.
//!
//! Everything the engine touches is addressed as `base + RVA`, where `base` is the load
//! address of the game module.

use vstd::prelude::*;

use crate::memory::{Bytes, Memory, off, store64, u64_at};

verus! {

/// Name of the simulation module.
pub const SIM_MODULE: &'static str = "HaloSimulation_tag_release.dll";

/// Load addresses of the modules, 0 while unknown.
pub struct Modules {
    pub base: u64,
    pub sim_base: u64,
}

impl Modules {
    /// Neither module resolved.
    pub fn new() -> (r: Modules)
        ensures
            r.base == 0,
            r.sim_base == 0,
    {
        Modules { base: 0, sim_base: 0 }
    }
}

/// Keep the game module's base. `handle` is the module handle of the running program.
pub fn init(s: &mut Modules, handle: u64)
    ensures
        final(s).base == handle,
        final(s).sim_base == old(s).sim_base,
{
    s.base = handle;
}

/// The game module's base (0 until [`init`] runs).
pub fn base(s: &Modules) -> (r: u64)
    ensures
        r == s.base,
{
    s.base
}

/// Base of the simulation module, or 0 if it is not loaded. `looked_up` is what the operating
/// system answers for [`SIM_MODULE`]; the first answer that is not 0 is kept.
pub fn sim_base(s: &mut Modules, looked_up: u64) -> (r: u64)
    ensures
        r == if old(s).sim_base != 0 {
            old(s).sim_base
        } else {
            looked_up
        },
        final(s).sim_base == r,
        final(s).base == old(s).base,
{
    if s.sim_base == 0 {
        s.sim_base = looked_up;
    }
    s.sim_base
}

/// Absolute address of a module RVA.
pub fn at(s: &Modules, rva: u64) -> (r: u64)
    ensures
        r == off(s.base, rva),
{
    s.base.wrapping_add(rva)
}

/// Pointer to a module RVA.
pub fn ptr(s: &Modules, rva: u64) -> (r: u64)
    ensures
        r == off(s.base, rva),
{
    at(s, rva)
}

/// Entry point of the native function at a module RVA.
pub fn func(s: &Modules, rva: u64) -> (r: u64)
    ensures
        r == off(s.base, rva),
{
    at(s, rva)
}

/// Overwrite the pointer at `slot` and return the previous value. `None` on a fault, with
/// memory unchanged.
pub fn patch_ptr(m: &mut Memory, slot: u64, new: u64) -> (r: Option<u64>)
    ensures
        r == u64_at(old(m)@, slot),
        final(m)@ == store64(old(m)@, slot, new),
{
    let prev = m.read_u64(slot)?;
    m.write_u64(slot, new);
    Some(prev)
}

/// Patching a pointer and patching the previous value back restores memory.
pub proof fn law_patch_back(m: Bytes, slot: u64, new: u64)
    requires
        u64_at(m, slot) is Some,
    ensures
        store64(store64(m, slot, new), slot, u64_at(m, slot)->0) == m,
{
    crate::memory::lemma_put64_frame(m, slot, new);
    crate::memory::lemma_restore64(m, slot, new, u64_at(m, slot)->0);
}

} // verus!
