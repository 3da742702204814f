//! The detour of the player controller's `ProcessEvent`, on which queued commands run: the game
//! thread is in it.

use vstd::prelude::*;

use super::{hook_vtable_slot, vtable_entry};
use crate::cmd;
use crate::cmd::{Cmd, Queue};
use crate::memory::{Bytes, Memory, elem, store64, u64_at};
use crate::offsets::PROCESSEVENT_SLOT;

verus! {

/// The state of the detour.
#[derive(Clone, Copy)]
pub struct PcHook {
    /// What the vtable held before.
    pub original: u64,
    pub hooked: bool,
    /// Commands are being run on this thread.
    pub in_drain: bool,
}

impl PcHook {
    /// Not installed.
    pub fn new() -> (r: PcHook)
        ensures
            r == (PcHook { original: 0, hooked: false, in_drain: false }),
    {
        PcHook { original: 0, hooked: false, in_drain: false }
    }
}

/// Whether an attempt to install has work to do.
pub open spec fn installable(s: PcHook, m: Bytes, pc: u64) -> bool {
    !s.hooked && pc != 0 && vtable_entry(m, pc, PROCESSEVENT_SLOT) is Some
}

/// Install the detour on the controller's class, once. Returns whether it was installed now.
pub fn install(s: &mut PcHook, m: &mut Memory, pc: u64, detour: u64) -> (r: bool)
    ensures
        r == installable(*old(s), old(m)@, pc),
        r ==> {
            let (at, entry) = vtable_entry(old(m)@, pc, PROCESSEVENT_SLOT)->0;
            &&& final(m)@ == store64(old(m)@, at, detour)
            &&& *final(s) == (PcHook { original: entry, hooked: true, ..*old(s) })
        },
        !r ==> final(m)@ == old(m)@ && *final(s) == *old(s),
{
    if s.hooked || pc == 0 {
        return false;
    }
    match hook_vtable_slot(m, pc, PROCESSEVENT_SLOT, detour) {
        None => false,
        Some(entry) => {
            s.original = entry;
            s.hooked = true;
            true
        },
    }
}

/// Whether the waiting commands are taken on entry to the detour.
pub open spec fn draining(s: PcHook, q: Seq<Cmd>) -> bool {
    !s.in_drain && q.len() > 0
}

/// On entry to the detour: take the waiting commands, unless they are being run already. A
/// command may itself lead into the detour.
pub fn pc_detour(s: &mut PcHook, q: &mut Queue) -> (r: Option<Vec<Cmd>>)
    requires
        old(q).wf(),
    ensures
        final(q).wf(),
        ({
            let drains = draining(*old(s), old(q)@);
            &&& r is Some == drains
            &&& r matches Some(v) ==> v@ == old(q)@
            &&& final(q)@ == if drains {
                Seq::empty()
            } else {
                old(q)@
            }
            &&& *final(s) == (PcHook { in_drain: old(s).in_drain || drains, ..*old(s) })
        }),
{
    if !s.in_drain && cmd::has_pending(q) {
        s.in_drain = true;
        return Some(cmd::take_all(q));
    }
    None
}

/// The taken commands have been run.
pub fn drained(s: &mut PcHook)
    ensures
        *final(s) == (PcHook { in_drain: false, ..*old(s) }),
{
    s.in_drain = false;
}

/// Commands that wait are taken on entry to the detour, but not while others are being run: a
/// command that leads into the detour does not run what waits behind it.
pub proof fn law_drains_once(s: PcHook, q: Seq<Cmd>)
    ensures
        !draining(PcHook { in_drain: true, ..s }, q),
        q.len() > 0 ==> draining(PcHook { in_drain: false, ..s }, q),
        q.len() == 0 ==> !draining(s, q),
{
}

/// The detour is installed once, on a controller that is there.
pub proof fn law_installs_once(s: PcHook, m: Bytes, pc: u64)
    ensures
        s.hooked ==> !installable(s, m, pc),
        !installable(s, m, 0),
        !s.hooked && pc != 0 ==> (u64_at(m, pc) matches Some(vt) ==> (installable(s, m, pc)
            <==> u64_at(m, elem(vt, 79, 8)) is Some)),
{
}

} // verus!
