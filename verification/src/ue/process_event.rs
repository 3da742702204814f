//! Preparing calls of engine functions through `ProcessEvent`.
//!
//! The library works out what to call; the host makes the call.

use vstd::prelude::*;

use super::reflect::{MAX_HOPS, class_of, class_ptr, find_function, function_ptr};
use crate::memory::{Bytes, Memory, elem, elem_addr, u16_at, u64_at};
use crate::offsets::{PROCESSEVENT_SLOT, UFN_PARMSSIZE};

verus! {

/// The address to call for `ProcessEvent` on `obj`: `Some(None)` where no call is made because
/// the object, the function or the vtable is null, `None` on a fault.
pub open spec fn event_entry(m: Bytes, obj: u64, func: u64) -> Option<Option<u64>> {
    if obj == 0 || func == 0 {
        Some(None)
    } else {
        match u64_at(m, obj) {
            None => None,
            Some(0) => Some(None),
            Some(vtbl) => match u64_at(m, elem(vtbl, PROCESSEVENT_SLOT as int, 8)) {
                None => None,
                Some(entry) => Some(Some(entry)),
            },
        }
    }
}

/// Resolve `ProcessEvent` for a call of `func` on `obj`.
pub fn process_event(m: &mut Memory, obj: u64, func: u64) -> (r: Option<Option<u64>>)
    ensures
        r == event_entry(old(m)@, obj, func),
        final(m)@ == old(m)@,
{
    if obj == 0 || func == 0 {
        return Some(None);
    }
    let vtbl = m.read_u64(obj)?;
    if vtbl == 0 {
        return Some(None);
    }
    let entry = m.read_u64(elem_addr(vtbl, PROCESSEVENT_SLOT, 8))?;
    Some(Some(entry))
}

/// The expected size that skips the size check.
pub const ANY_SIZE: i32 = -1;

/// How a call by name comes out.
#[derive(Clone, Copy, PartialEq, Eq, Structural)]
pub enum Call {
    /// Resolving the call faulted.
    Fault,
    /// There is no object to call on.
    NoObject,
    /// The object's class chain has no such function.
    NotFound,
    /// The function's parameter block has another size than expected.
    WrongSize { actual: u16 },
    /// Call `entry(obj, func, parms)`. Without an entry the object has no vtable and the call
    /// counts as made.
    Ready { func: u64, entry: Option<u64> },
}

/// What a call of `fname` on `obj` comes to. A negative `expect_ps` skips the size check.
pub open spec fn call_by_name(
    m: Bytes,
    base: u64,
    obj: u64,
    fname: Seq<char>,
    expect_ps: i32,
) -> Call {
    if obj == 0 {
        Call::NoObject
    } else {
        match class_ptr(m, obj) {
            None => Call::Fault,
            Some(cls) => match function_ptr(m, base, cls, fname, MAX_HOPS as nat) {
                None => Call::Fault,
                Some(f) => if f == 0 {
                    Call::NotFound
                } else {
                    match checked_size(m, f, expect_ps) {
                        None => Call::Fault,
                        Some(Some(actual)) => Call::WrongSize { actual },
                        Some(None) => match event_entry(m, obj, f) {
                            None => Call::Fault,
                            Some(entry) => Call::Ready { func: f, entry },
                        },
                    }
                },
            },
        }
    }
}

/// The parameter size of `func` where it is checked and is not `expect_ps`.
pub open spec fn checked_size(m: Bytes, func: u64, expect_ps: i32) -> Option<Option<u16>> {
    if expect_ps < 0 {
        Some(None)
    } else {
        match u16_at(m, crate::memory::off(func, UFN_PARMSSIZE)) {
            None => None,
            Some(ps) => if ps == expect_ps {
                Some(None)
            } else {
                Some(Some(ps))
            },
        }
    }
}

impl Call {
    /// Whether the call is made.
    pub fn made(&self) -> (r: bool)
        ensures
            r == (self is Ready),
    {
        match self {
            Call::Ready { .. } => true,
            _ => false,
        }
    }
}

/// Resolve `fname` on the class of `obj`, check the parameter size unless `expect_ps` is
/// negative, and prepare the call.
pub fn pe_call(m: &mut Memory, base: u64, obj: u64, fname: &str, expect_ps: i32) -> (r: Call)
    ensures
        r == call_by_name(old(m)@, base, obj, fname@, expect_ps),
        final(m)@ == old(m)@,
{
    if obj == 0 {
        return Call::NoObject;
    }
    let cls = match class_of(m, obj) {
        Some(c) => c,
        None => return Call::Fault,
    };
    let f = match find_function(m, base, cls, fname) {
        Some(f) => f,
        None => return Call::Fault,
    };
    if f == 0 {
        return Call::NotFound;
    }
    if expect_ps >= 0 {
        match m.read_u16(f.wrapping_add(UFN_PARMSSIZE)) {
            None => return Call::Fault,
            Some(ps) => if ps as i32 != expect_ps {
                return Call::WrongSize { actual: ps };
            },
        }
    }
    match process_event(m, obj, f) {
        None => Call::Fault,
        Some(entry) => Call::Ready { func: f, entry },
    }
}

/// A call is refused where the function's parameter block has another size than expected, unless
/// any size will do; and it goes through entry 79 of the object's vtable.
pub proof fn law_calls_checked(m: Bytes, obj: u64, func: u64, size: u16, vt: u64)
    requires
        obj != 0,
        func != 0,
        vt != 0,
        u16_at(m, crate::memory::off(func, 0xb6)) == Some(size),
        u64_at(m, obj) == Some(vt),
    ensures
        checked_size(m, func, size as i32) == Some(None::<u16>),
        checked_size(m, func, -1i32) == Some(None::<u16>),
        size < 0xffff ==> checked_size(m, func, (size + 1) as i32) == Some(Some(size)),
        u64_at(m, elem(vt, 79, 8)) matches Some(e) ==> event_entry(m, obj, func) == Some(Some(e)),
        event_entry(m, 0, func) == Some(None::<u64>),
{
}

} // verus!
