//! Calls that hand something back, and calls of library functions: how they are prepared, and
//! how the parameter block is read afterwards.

use vstd::prelude::*;

use crate::bytes::{
    get_u32, get_u64, le32, le64, overlaid, set_u32, set_u64, set_u8, word32, word64, zeroed, zeros,
};
use crate::ieee::ONE;
use crate::memory::{Bytes, Memory};
use crate::ue::process_event::{ANY_SIZE, Call, call_by_name, event_entry, pe_call, process_event};
use crate::ue::reflect::{
    MAX_HOPS, class_like, find_class, find_function, find_live_by_class, function_ptr, live_object,
    table_search,
};

verus! {

/// The pattern that stands for a number that no call returned.
pub const NOT_A_NUMBER: u32 = 0x7fc0_0000;

/// Prepare the call that hands back the controller's pawn.
pub fn get_pawn(m: &mut Memory, base: u64, pc: u64) -> (r: Call)
    ensures
        r == call_by_name(old(m)@, base, pc, "K2_GetPawn"@, ANY_SIZE),
        final(m)@ == old(m)@,
{
    pe_call(m, base, pc, "K2_GetPawn", ANY_SIZE)
}

/// The object that a call handed back in its parameter block: null if no call was made.
pub fn call_ret_ptr(reply: &Option<Vec<u8>>) -> (r: u64)
    ensures
        r == match *reply {
            None => 0,
            Some(b) => word64(b@, 0),
        },
{
    match reply {
        None => 0,
        Some(b) => get_u64(b, 0),
    }
}

/// The number that a call handed back: not-a-number if no call was made.
pub fn call_ret_f32(reply: &Option<Vec<u8>>) -> (r: u32)
    ensures
        r == match *reply {
            None => NOT_A_NUMBER,
            Some(b) => word32(b@, 0),
        },
{
    match reply {
        None => NOT_A_NUMBER,
        Some(b) => get_u32(b, 0),
    }
}

/// The byte at `at`: 0 where the buffer is too short.
pub open spec fn byte_at(s: Seq<u8>, at: int) -> u8 {
    if 0 <= at < s.len() {
        s[at]
    } else {
        0
    }
}

fn get_u8(b: &Vec<u8>, at: usize) -> (r: u8)
    ensures
        r == byte_at(b@, at as int),
{
    if at < b.len() {
        b[at]
    } else {
        0
    }
}

/// The truth value that a call handed back: false if no call was made.
pub fn call_ret_bool(reply: &Option<Vec<u8>>) -> (r: bool)
    ensures
        r == match *reply {
            None => false,
            Some(b) => byte_at(b@, 0) != 0,
        },
{
    match reply {
        None => false,
        Some(b) => get_u8(b, 0) != 0,
    }
}

/// The parameter block of a call that takes one object.
pub open spec fn object_parms(obj: u64) -> Seq<u8> {
    overlaid(zeros(32), 0, le64(obj))
}

/// Build the parameter block of a call that takes one object.
pub fn object_block(obj: u64) -> (r: Vec<u8>)
    ensures
        r@ == object_parms(obj),
{
    let mut p = zeroed(32);
    set_u64(&mut p, 0, obj);
    p
}

/// The truth value that a call handed back behind the object it took: false if no call was made.
pub fn call_actor_ret_bool(reply: &Option<Vec<u8>>) -> (r: bool)
    ensures
        r == match *reply {
            None => false,
            Some(b) => byte_at(b@, 8) != 0,
        },
{
    match reply {
        None => false,
        Some(b) => get_u8(b, 8) != 0,
    }
}

/// Prepare the call that finds a component of an actor by its class. Nothing is called for a
/// null class.
pub fn get_component(m: &mut Memory, base: u64, actor: u64, comp_class: u64) -> (r: Call)
    ensures
        r == if comp_class == 0 {
            Call::NoObject
        } else {
            call_by_name(old(m)@, base, actor, "GetComponentByClass"@, ANY_SIZE)
        },
        final(m)@ == old(m)@,
{
    if comp_class == 0 {
        return Call::NoObject;
    }
    pe_call(m, base, actor, "GetComponentByClass", ANY_SIZE)
}

/// The component that [`get_component`]'s call handed back: null if no call was made.
pub fn component_of(reply: &Option<Vec<u8>>) -> (r: u64)
    ensures
        r == match *reply {
            None => 0,
            Some(b) => word64(b@, 8),
        },
{
    match reply {
        None => 0,
        Some(b) => get_u64(b, 8),
    }
}

/// What a call of the library function `fname` of the class `class_name` on the context object
/// `obj` comes to.
pub open spec fn library_call(
    m: Bytes,
    base: u64,
    class_name: Seq<char>,
    fname: Seq<char>,
    obj: u64,
) -> Call {
    match table_search(m, base, |o: u64| class_like(m, base, o, class_name)) {
        None => Call::Fault,
        Some(cls) => if cls == 0 {
            Call::NotFound
        } else {
            match function_ptr(m, base, cls, fname, MAX_HOPS as nat) {
                None => Call::Fault,
                Some(f) => if f == 0 {
                    Call::NotFound
                } else {
                    match event_entry(m, obj, f) {
                        None => Call::Fault,
                        Some(entry) => Call::Ready { func: f, entry },
                    }
                },
            }
        },
    }
}

fn prepare_library_call(m: &mut Memory, base: u64, class_name: &str, fname: &str, obj: u64) -> (r:
    Call)
    ensures
        r == library_call(old(m)@, base, class_name@, fname@, obj),
        final(m)@ == old(m)@,
{
    let cls = match find_class(m, base, class_name) {
        None => return Call::Fault,
        Some(c) => c,
    };
    if cls == 0 {
        return Call::NotFound;
    }
    let f = match find_function(m, base, cls, fname) {
        None => return Call::Fault,
        Some(f) => f,
    };
    if f == 0 {
        return Call::NotFound;
    }
    match process_event(m, obj, f) {
        None => Call::Fault,
        Some(entry) => Call::Ready { func: f, entry },
    }
}

/// The parameter block that sets the engine's time dilation: the world, then the dilation.
pub open spec fn dilation_parms(world: u64, td: u32) -> Seq<u8> {
    overlaid(overlaid(zeros(16), 0, le64(world)), 8, le32(td))
}

/// Prepare the call that sets the engine's own time dilation. `world` is any live object.
pub fn apply_time(m: &mut Memory, base: u64, world: u64, td: u32) -> (r: (Call, Vec<u8>))
    ensures
        r.0 == library_call(
            old(m)@,
            base,
            "GameplayStatics"@,
            "SetGlobalTimeDilation"@,
            world,
        ),
        r.1@ == dilation_parms(world, td),
        final(m)@ == old(m)@,
{
    let call = prepare_library_call(m, base, "GameplayStatics", "SetGlobalTimeDilation", world);
    let mut p = zeroed(16);
    set_u64(&mut p, 0, world);
    set_u32(&mut p, 8, td);
    (call, p)
}

/// The console command that toggles the overlay's input.
pub const TOGGLE_INPUT: &'static str = "ImGui.ToggleInput";

/// The parameter block of a console command: the context, the text with its length and
/// capacity, and the player.
pub open spec fn console_parms(pc: u64, text: u64, len: u32) -> Seq<u8> {
    overlaid(
        overlaid(
            overlaid(
                overlaid(overlaid(zeros(64), 0, le64(pc)), 8, le64(text)),
                0x10,
                le32(len),
            ),
            0x14,
            le32(len),
        ),
        0x18,
        le64(pc),
    )
}

/// Prepare a console command. `text` is the address of the command in UTF-16, `len` its length
/// with the terminating zero.
pub fn console_command(m: &mut Memory, base: u64, pc: u64, text: u64, len: u32) -> (r: (
    Call,
    Vec<u8>,
))
    ensures
        r.0 == library_call(
            old(m)@,
            base,
            "KismetSystemLibrary"@,
            "ExecuteConsoleCommand"@,
            pc,
        ),
        r.1@ == console_parms(pc, text, len),
        final(m)@ == old(m)@,
{
    let call = prepare_library_call(m, base, "KismetSystemLibrary", "ExecuteConsoleCommand", pc);
    let mut p = zeroed(64);
    set_u64(&mut p, 0, pc);
    set_u64(&mut p, 8, text);
    set_u32(&mut p, 0x10, len);
    set_u32(&mut p, 0x14, len);
    set_u64(&mut p, 0x18, pc);
    (call, p)
}

/// The parameter block of a camera fade: from, to, duration, an opaque colour, and whether the
/// end is held.
pub open spec fn fade_parms(out: bool) -> Seq<u8> {
    let from = if out {
        0u32
    } else {
        ONE
    };
    let to = if out {
        ONE
    } else {
        0u32
    };
    overlaid(
        overlaid(
            overlaid(
                overlaid(overlaid(zeros(64), 0, le32(from)), 4, le32(to)),
                8,
                le32(ONE),
            ),
            0x18,
            le32(ONE),
        ),
        0x1d,
        seq![super::flag(out)],
    )
}

/// Build the parameter block of a camera fade.
pub fn fade_block(out: bool) -> (r: Vec<u8>)
    ensures
        r@ == fade_parms(out),
{
    let mut p = zeroed(64);
    let from = if out {
        0
    } else {
        ONE
    };
    let to = if out {
        ONE
    } else {
        0
    };
    set_u32(&mut p, 0, from);
    set_u32(&mut p, 4, to);
    set_u32(&mut p, 8, ONE);
    set_u32(&mut p, 0x18, ONE);
    set_u8(&mut p, 0x1d, super::flag_byte(out));
    p
}

/// Prepare a camera fade, to black or from black: the camera manager, the call on it, and the
/// parameter block. Nothing is called where there is no camera manager.
pub fn camera_fade(m: &mut Memory, base: u64, out: bool) -> (r: (u64, Call, Vec<u8>))
    ensures
        match live_object(old(m)@, base, "CameraManager"@) {
            None => r.0 == 0 && r.1 == Call::Fault,
            Some(cam) => r.0 == cam && r.1 == call_by_name(
                old(m)@,
                base,
                cam,
                "StartCameraFade"@,
                ANY_SIZE,
            ),
        },
        r.2@ == fade_parms(out),
        final(m)@ == old(m)@,
{
    let p = fade_block(out);
    match find_live_by_class(m, base, "CameraManager") {
        None => (0, Call::Fault, p),
        Some(cam) => {
            let call = pe_call(m, base, cam, "StartCameraFade", ANY_SIZE);
            (cam, call, p)
        },
    }
}

/// A fade to black goes from clear to opaque, takes one second and holds its end. It ends where a
/// fade from black begins, and the other way round.
pub proof fn law_fades_mirror(out: bool)
    ensures
        fade_parms(out).len() == 64,
        word32(fade_parms(true), 0) == 0,
        word32(fade_parms(true), 4) == 0x3f80_0000,
        word32(fade_parms(out), 8) == 0x3f80_0000,
        word32(fade_parms(out), 0x18) == 0x3f80_0000,
        byte_at(fade_parms(true), 0x1d) == 1,
        byte_at(fade_parms(false), 0x1d) == 0,
        byte_at(fade_parms(out), 0x1c) == 0,
        word32(fade_parms(out), 0xc) == 0,
        word32(fade_parms(out), 0x10) == 0,
        word32(fade_parms(out), 0x14) == 0,
        word32(fade_parms(out), 0) == word32(fade_parms(!out), 4),
        word32(fade_parms(out), 4) == word32(fade_parms(!out), 0),
        byte_at(fade_parms(out), 0x1d) == super::flag(out),
{
}

/// The engine's time dilation is set by the world at the start of the block and the dilation
/// behind it.
pub proof fn law_dilation_block(world: u64, td: u32, i: int)
    requires
        0 <= i < 8,
    ensures
        dilation_parms(world, td).len() == 16,
        dilation_parms(world, td)[i] == le64(world)[i],
        i < 4 ==> dilation_parms(world, td)[8 + i] == le32(td)[i],
        i < 4 ==> dilation_parms(world, td)[12 + i] == 0,
{
}

/// A console command is a string by its address, its length and its capacity, which are the
/// same, between the controller as the context and as the player.
pub proof fn law_console_block(pc: u64, text: u64, len: u32, i: int)
    requires
        0 <= i < 8,
    ensures
        console_parms(pc, text, len).len() == 64,
        console_parms(pc, text, len)[i] == le64(pc)[i],
        console_parms(pc, text, len)[8 + i] == le64(text)[i],
        console_parms(pc, text, len)[0x10 + i] == le32(len)[i % 4],
        console_parms(pc, text, len)[0x18 + i] == le64(pc)[i],
{
}

} // verus!
