//! Hooks into the game.

use vstd::prelude::*;

pub mod camera;
pub mod imgui;
pub mod panel;
pub mod pc;
pub mod sim_seed;
pub mod skulls;

use crate::memory::{Bytes, Memory, elem, elem_addr, store64, u64_at};

verus! {

/// The vtable entry of an object: the address of the entry and what it holds.
pub open spec fn vtable_entry(m: Bytes, obj: u64, slot: u64) -> Option<(u64, u64)> {
    match u64_at(m, obj) {
        None => None,
        Some(vt) => match u64_at(m, elem(vt, slot as int, 8)) {
            None => None,
            Some(entry) => Some((elem(vt, slot as int, 8), entry)),
        },
    }
}

/// Overwrite entry `slot` of the vtable of `obj` with `detour`, and return what it held, so that
/// the detour can call on. Every object with the same vtable is affected. `None` on a fault,
/// with nothing changed.
pub fn hook_vtable_slot(m: &mut Memory, obj: u64, slot: u64, detour: u64) -> (r: Option<u64>)
    ensures
        match vtable_entry(old(m)@, obj, slot) {
            None => r is None && final(m)@ == old(m)@,
            Some((at, entry)) => r == Some(entry) && final(m)@ == store64(old(m)@, at, detour),
        },
{
    let vt = m.read_u64(obj)?;
    let at = elem_addr(vt, slot, 8);
    let orig = m.read_u64(at)?;
    m.write_u64(at, detour);
    Some(orig)
}

/// Entry `slot` of an object's vtable stands eight times `slot` bytes into the table that the
/// object's first eight bytes lead to.
pub proof fn law_vtable_entry(m: Bytes, obj: u64, slot: u64, vt: u64, entry: u64)
    requires
        u64_at(m, obj) == Some(vt),
        u64_at(m, elem(vt, slot as int, 8)) == Some(entry),
    ensures
        vtable_entry(m, obj, slot) == Some((elem(vt, slot as int, 8), entry)),
{
}

} // verus!
