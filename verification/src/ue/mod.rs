//! Unreal Engine reflection: names, the object table, class and function lookup, and calls
//! through `ProcessEvent`.
//!
//! Functions here read engine structures with no guard of their own: a fault anywhere in a
//! walk is the result `None`.

use vstd::prelude::*;

pub mod fname;
pub mod object;
pub mod process_event;
pub mod reflect;

use crate::memory::{Bytes, Memory};
use crate::text;

verus! {

/// The outcome of [`verify`].
pub open spec fn verified(m: Bytes, base: u64) -> Option<bool> {
    match (
        fname::name_text(m, base, 0),
        object::element_count(m, base),
        reflect::live_object(m, base, "MeteoritePlayerController"@),
    ) {
        (Some(name), Some(n), Some(pc)) => Some(name == "None"@ && n > 0),
        _ => None,
    }
}

/// Whether reflection can be trusted: name id 0 must decode to `None` and the object table
/// must not be empty. The search for the player controller must get through without a fault,
/// whether or not it finds one.
pub fn verify(m: &mut Memory, base: u64) -> (r: Option<bool>)
    ensures
        r == verified(old(m)@, base),
        final(m)@ == old(m)@,
{
    let name0 = fname::name_by_id(m, base, 0)?;
    let num = object::num_elements(m, base)?;
    let pc = reflect::find_player_controller(m, base)?;
    Some(text::same(name0.as_str(), "None") && num > 0)
}

} // verus!
