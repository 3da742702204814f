//! The third-person body, and what is held on the pawn from frame to frame.

use vstd::prelude::*;

use super::{PawnState, Step, StepView, and, flag, flag_byte, one, step, step_views};
use crate::bytes::le64;
use crate::memory::{
    Bytes, Memory, Put, i16_at, i32_at, law_row_stands, off, put_all, u32_at, u64_at, u8_at,
};
use crate::offsets::{
    PAWN_ACTIVE_REP, PAWN_PERSPECTIVE, PAWN_REPMGR, REPMGR_ACTIVE_WORLD_REP, REPMGR_GATE_SHOW,
    UO_OUTER,
};
use crate::simtime::lookup::{GTG_TICK_LENGTH, GTG_TICK_RATE};
use crate::text;
use crate::text::mentions;
use crate::ue::fname::{obj_name, object_name};
use crate::ue::object::{element_count, num_elements, object_at, slot_object};
use crate::ue::reflect::{class_of, class_ptr};

verus! {

/// How many owners a search for the pawn looks at.
pub const MAX_OWNERS: u32 = 5;

/// One of the first `hops` owners from `owner` on is the pawn or its actor. Sub-meshes are owned
/// through the body mesh; a weapon is owned by an actor of its own.
pub open spec fn owned_by(m: Bytes, owner: u64, pawn: u64, actor: u64, hops: nat) -> Option<bool>
    decreases hops,
{
    if hops == 0 || owner == 0 {
        Some(false)
    } else if owner == pawn || owner == actor {
        Some(true)
    } else {
        match u64_at(m, off(owner, UO_OUTER)) {
            None => None,
            Some(o) => owned_by(m, o, pawn, actor, (hops - 1) as nat),
        }
    }
}

/// The name of a mesh that stands in for the body: first-person arms, shadow, or overlay.
pub open spec fn proxy_name(name: Seq<char>) -> bool {
    mentions(name, "FP"@) || mentions(name, "Shadow"@) || mentions(name, "Translucent"@)
}

/// The calls that show a mesh, without its attachments.
pub open spec fn visible_steps() -> Seq<StepView> {
    seq![
        step("SetVisibility"@, seq![1u8, 0u8], 2),
        step("SetHiddenInGame"@, seq![0u8, 0u8], 2),
    ]
}

/// The call that hides a mesh from its owner's camera, or shows it.
pub open spec fn owner_step(no_see: bool) -> StepView {
    step("SetOwnerNoSee"@, seq![flag(no_see)], 1)
}

/// The calls for a mesh. With the body on, first-person meshes are hidden from their owner's
/// camera and all others are shown to it, and nothing else is touched: each mesh keeps the
/// visibility that the game manages. With the body off, the arms are shown and the body is hidden
/// from the owner again.
pub open spec fn mesh_steps(name: Seq<char>, on: bool) -> Seq<StepView> {
    if on {
        seq![owner_step(mentions(name, "FP"@))]
    } else if mentions(name, "FP"@) {
        seq![owner_step(false)] + visible_steps()
    } else if !proxy_name(name) {
        seq![owner_step(true)]
    } else {
        Seq::empty()
    }
}

/// A mesh of the pawn, and the calls to make on it.
pub struct Mesh {
    pub obj: u64,
    pub name: String,
    pub proxy: bool,
    pub steps: Vec<Step>,
}

/// The contents of a [`Mesh`].
pub struct MeshView {
    pub obj: u64,
    pub name: Seq<char>,
    pub proxy: bool,
    pub steps: Seq<StepView>,
}

impl View for Mesh {
    type V = MeshView;

    open spec fn view(&self) -> MeshView {
        MeshView {
            obj: self.obj,
            name: self.name@,
            proxy: self.proxy,
            steps: step_views(self.steps@),
        }
    }
}

/// The contents of a list of meshes.
pub open spec fn mesh_views(v: Seq<Mesh>) -> Seq<MeshView> {
    v.map_values(|x: Mesh| x@)
}

/// The object as a mesh of the pawn: `Some(None)` if it is none, `None` on a fault.
#[verifier::opaque]
pub open spec fn as_mesh(m: Bytes, base: u64, pawn: u64, actor: u64, on: bool, o: u64) -> Option<
    Option<MeshView>,
> {
    match u64_at(m, off(o, UO_OUTER)) {
        None => None,
        Some(owner) => match owned_by(m, owner, pawn, actor, MAX_OWNERS as nat) {
            None => None,
            Some(false) => Some(None),
            Some(true) => match (object_name(m, base, o), class_ptr(m, o)) {
                (Some(name), Some(c)) => match object_name(m, base, c) {
                    None => None,
                    Some(cn) => if mentions(cn, "SkeletalMesh"@) || mentions(
                        name,
                        "SkeletalMesh"@,
                    ) {
                        Some(
                            Some(
                                MeshView {
                                    obj: o,
                                    name,
                                    proxy: proxy_name(name),
                                    steps: mesh_steps(name, on),
                                },
                            ),
                        )
                    } else {
                        Some(None)
                    },
                },
                _ => None,
            },
        },
    }
}

/// The meshes of the pawn among the slots `i..n`, and whether the scan got through: a fault ends
/// it.
pub open spec fn meshes_from(
    m: Bytes,
    base: u64,
    pawn: u64,
    actor: u64,
    on: bool,
    i: int,
    n: int,
) -> (Seq<MeshView>, bool)
    decreases n - i,
{
    if i >= n {
        (Seq::empty(), true)
    } else {
        match slot_object(m, base, i) {
            None => (Seq::empty(), false),
            Some(0) => meshes_from(m, base, pawn, actor, on, i + 1, n),
            Some(o) => match as_mesh(m, base, pawn, actor, on, o) {
                None => (Seq::empty(), false),
                Some(None) => meshes_from(m, base, pawn, actor, on, i + 1, n),
                Some(Some(v)) => {
                    let rest = meshes_from(m, base, pawn, actor, on, i + 1, n);
                    (seq![v] + rest.0, rest.1)
                },
            },
        }
    }
}

fn is_owned(m: &mut Memory, first: u64, pawn: u64, actor: u64) -> (r: Option<bool>)
    ensures
        r == owned_by(old(m)@, first, pawn, actor, MAX_OWNERS as nat),
        final(m)@ == old(m)@,
{
    let mut owner: u64 = first;
    let mut left: u32 = MAX_OWNERS;
    while owner != 0 && left > 0
        invariant
            left <= MAX_OWNERS,
            m@ == old(m)@,
            owned_by(old(m)@, first, pawn, actor, MAX_OWNERS as nat) == owned_by(
                m@,
                owner,
                pawn,
                actor,
                left as nat,
            ),
        decreases left,
    {
        if owner == pawn || owner == actor {
            return Some(true);
        }
        owner = m.read_u64(owner.wrapping_add(UO_OUTER))?;
        left -= 1;
    }
    Some(false)
}

fn pair(a: u8, b: u8) -> (r: Vec<u8>)
    ensures
        r@ == seq![a, b],
{
    let mut p: Vec<u8> = Vec::new();
    p.push(a);
    p.push(b);
    assert(p@ =~= seq![a, b]);
    p
}

fn single(a: u8) -> (r: Vec<u8>)
    ensures
        r@ == seq![a],
{
    let mut p: Vec<u8> = Vec::new();
    p.push(a);
    assert(p@ =~= seq![a]);
    p
}

fn shown(v: Vec<Step>) -> (r: Vec<Step>)
    ensures
        step_views(r@) == step_views(v@) + visible_steps(),
{
    let ghost before = step_views(v@);
    let v = and(v, "SetVisibility", pair(1, 0), 2);
    let v = and(v, "SetHiddenInGame", pair(0, 0), 2);
    assert(step_views(v@) =~= before + visible_steps());
    v
}

fn steps_for(name: &str, on: bool) -> (r: Vec<Step>)
    ensures
        step_views(r@) == mesh_steps(name@, on),
{
    let fp = text::contains(name, "FP");
    let proxy = fp || text::contains(name, "Shadow") || text::contains(name, "Translucent");
    let none: Vec<Step> = Vec::new();
    assert(step_views(none@) =~= Seq::empty());
    let v = if on {
        one("SetOwnerNoSee", single(flag_byte(fp)), 1)
    } else if fp {
        shown(one("SetOwnerNoSee", single(0), 1))
    } else if !proxy {
        one("SetOwnerNoSee", single(1), 1)
    } else {
        none
    };
    assert(step_views(v@) =~= mesh_steps(name@, on));
    v
}

fn find_mesh(m: &mut Memory, base: u64, pawn: u64, actor: u64, on: bool, o: u64) -> (r: Option<
    Option<Mesh>,
>)
    ensures
        r is Some == as_mesh(old(m)@, base, pawn, actor, on, o) is Some,
        r matches Some(f) ==> as_mesh(old(m)@, base, pawn, actor, on, o) == Some(
            match f {
                Some(x) => Some(x@),
                None => None,
            },
        ),
        final(m)@ == old(m)@,
{
    proof {
        reveal(as_mesh);
    }
    let owner = m.read_u64(o.wrapping_add(UO_OUTER))?;
    if !is_owned(m, owner, pawn, actor)? {
        return Some(None);
    }
    let name = obj_name(m, base, o)?;
    let c = class_of(m, o)?;
    let cn = obj_name(m, base, c)?;
    if !text::contains(cn.as_str(), "SkeletalMesh") && !text::contains(
        name.as_str(),
        "SkeletalMesh",
    ) {
        return Some(None);
    }
    let proxy = text::contains(name.as_str(), "FP") || text::contains(name.as_str(), "Shadow")
        || text::contains(name.as_str(), "Translucent");
    let steps = steps_for(name.as_str(), on);
    Some(Some(Mesh { obj: o, name, proxy, steps }))
}

/// Show or hide the third-person body: list the skeletal meshes of the pawn and its actor, each
/// with the calls to make on it, in the order of the object table. The flag is false if a fault
/// ended the scan.
pub fn try_third_person(m: &mut Memory, base: u64, pawn: u64, actor: u64, on: bool) -> (r: (
    Vec<Mesh>,
    bool,
))
    ensures
        (mesh_views(r.0@), r.1) == if pawn == 0 {
            (Seq::empty(), true)
        } else {
            match element_count(old(m)@, base) {
                None => (Seq::empty(), false),
                Some(n) => meshes_from(old(m)@, base, pawn, actor, on, 0, n as int),
            }
        },
        final(m)@ == old(m)@,
{
    let mut out: Vec<Mesh> = Vec::new();
    assert(mesh_views(out@) =~= Seq::empty());
    if pawn == 0 {
        return (out, true);
    }
    let n = match num_elements(m, base) {
        None => return (out, false),
        Some(n) => n,
    };
    let ghost all = meshes_from(m@, base, pawn, actor, on, 0, n as int);
    let mut i: i32 = 0;
    assert(mesh_views(out@) + all.0 =~= all.0);
    while i < n
        invariant
            0 <= i,
            m@ == old(m)@,
            pawn != 0,
            element_count(old(m)@, base) == Some(n),
            all == meshes_from(old(m)@, base, pawn, actor, on, 0, n as int),
            ({
                let rest = meshes_from(m@, base, pawn, actor, on, i as int, n as int);
                all == (mesh_views(out@) + rest.0, rest.1)
            }),
        decreases n - i,
    {
        match object_at(m, base, i) {
            None => {
                assert(mesh_views(out@) + Seq::<MeshView>::empty() =~= mesh_views(out@));
                return (out, false);
            },
            Some(o) => if o != 0 {
                match find_mesh(m, base, pawn, actor, on, o) {
                    None => {
                        assert(mesh_views(out@) + Seq::<MeshView>::empty() =~= mesh_views(out@));
                        return (out, false);
                    },
                    Some(None) => {},
                    Some(Some(x)) => {
                        let ghost prior = mesh_views(out@);
                        let ghost v = x@;
                        let ghost rest = meshes_from(m@, base, pawn, actor, on, i + 1, n as int);
                        out.push(x);
                        assert(mesh_views(out@) =~= prior.push(v));
                        assert(prior + (seq![v] + rest.0) =~= mesh_views(out@) + rest.0);
                    },
                }
            },
        }
        i += 1;
    }
    assert(mesh_views(out@) + Seq::<MeshView>::empty() =~= mesh_views(out@));
    (out, true)
}

/// Switching the body off shows the first-person arms to their owner, which switching it on had
/// hidden, and hides from its owner each mesh of the body that switching it on had shown.
pub proof fn law_body_off_shows_arms(name: Seq<char>)
    ensures
        mentions(name, "FP"@) ==> mesh_steps(name, true) == seq![owner_step(true)] && mesh_steps(
            name,
            false,
        ) == seq![owner_step(false)] + visible_steps(),
        !proxy_name(name) ==> mesh_steps(name, true) == seq![owner_step(false)] && mesh_steps(
            name,
            false,
        ) == seq![owner_step(true)],
{
}

/// Showing the body sets the owner-no-see flag of a mesh and calls nothing else on it.
pub proof fn law_body_on_flips_one_flag(name: Seq<char>, k: int)
    requires
        0 <= k < mesh_steps(name, true).len(),
    ensures
        mesh_steps(name, true).len() == 1,
        mesh_steps(name, true)[k].name == "SetOwnerNoSee"@,
{
}

/// The stores that activate or put back the world body. Without a representation manager, only
/// the pawn itself is written.
pub open spec fn body_row(pawn: u64, repmgr: u64, on: bool) -> Seq<Put> {
    let own = seq![
        Put::Word(
            off(pawn, PAWN_ACTIVE_REP),
            if on {
                1
            } else {
                0
            },
        ),
        Put::Byte(
            off(pawn, PAWN_PERSPECTIVE),
            if on {
                2
            } else {
                1
            },
        ),
    ];
    if repmgr == 0 {
        own
    } else if on {
        seq![
            Put::Word(off(repmgr, REPMGR_ACTIVE_WORLD_REP), 1),
            Put::Byte(off(repmgr, REPMGR_GATE_SHOW), 1),
        ] + own
    } else {
        seq![Put::Word(off(repmgr, REPMGR_ACTIVE_WORLD_REP), 0xffff_ffff)] + own
    }
}

fn body_stores(pawn: u64, repmgr: u64, on: bool) -> (r: Vec<Put>)
    ensures
        r@ == body_row(pawn, repmgr, on),
{
    let mut row: Vec<Put> = Vec::new();
    if repmgr != 0 {
        if on {
            row.push(Put::Word(repmgr.wrapping_add(REPMGR_ACTIVE_WORLD_REP), 1));
            row.push(Put::Byte(repmgr.wrapping_add(REPMGR_GATE_SHOW), 1));
        } else {
            row.push(Put::Word(repmgr.wrapping_add(REPMGR_ACTIVE_WORLD_REP), 0xffff_ffff));
        }
    }
    let index: u32 = if on {
        1
    } else {
        0
    };
    let persp: u8 = if on {
        2
    } else {
        1
    };
    row.push(Put::Word(pawn.wrapping_add(PAWN_ACTIVE_REP), index));
    row.push(Put::Byte(pawn.wrapping_add(PAWN_PERSPECTIVE), persp));
    assert(row@ =~= body_row(pawn, repmgr, on));
    row
}

/// The outcome of [`show_full_body`]: memory afterwards, and whether the updater is due.
pub open spec fn full_body(m: Bytes, pawn: u64, on: bool) -> (Bytes, bool) {
    match (
        u64_at(m, off(pawn, PAWN_REPMGR)),
        i32_at(m, off(pawn, PAWN_ACTIVE_REP)),
        u8_at(m, off(pawn, PAWN_PERSPECTIVE)),
    ) {
        (Some(repmgr), Some(index), persp) if pawn != 0 && (!on || persp is Some) => put_all(
            m,
            body_row(pawn, repmgr, on),
        ),
        _ => (m, false),
    }
}

/// Activate or put back the third-person world body. If all stores landed, the host is to call
/// the representation updater with the index that comes back.
pub fn show_full_body(m: &mut Memory, pawn: u64, on: bool) -> (r: Option<i32>)
    ensures
        final(m)@ == full_body(old(m)@, pawn, on).0,
        r == if full_body(old(m)@, pawn, on).1 {
            Some(
                if on {
                    1i32
                } else {
                    0i32
                },
            )
        } else {
            None
        },
{
    if pawn == 0 {
        return None;
    }
    let repmgr = m.read_u64(pawn.wrapping_add(PAWN_REPMGR))?;
    let _index = m.read_i32(pawn.wrapping_add(PAWN_ACTIVE_REP))?;
    if on {
        let _persp = m.read_u8(pawn.wrapping_add(PAWN_PERSPECTIVE))?;
    }
    let row = body_stores(pawn, repmgr, on);
    if !m.write_all(&row) {
        return None;
    }
    if on {
        Some(1)
    } else {
        Some(0)
    }
}

/// A forced scale other than zero.
pub open spec fn scale_forced(scale: u64) -> bool {
    scale != 0 && scale != 0x8000_0000_0000_0000
}

/// What is to be done on this frame to hold the pawn's state.
#[derive(Clone, Copy, PartialEq, Eq, Structural)]
pub struct Hold {
    /// Call the representation updater.
    pub update: bool,
    /// Scale the world body.
    pub scale: Option<u64>,
}

/// The outcome of [`hold_pawn_state`]: memory afterwards, and what is to be done.
pub open spec fn held(m: Bytes, s: PawnState, pawn: u64) -> (Bytes, Option<Hold>) {
    let scale = if scale_forced(s.scale) {
        Some(s.scale)
    } else {
        None
    };
    if (!s.fullbody && scale is None) || pawn == 0 {
        (m, None)
    } else {
        match u64_at(m, off(pawn, PAWN_REPMGR)) {
            None => (m, None),
            Some(repmgr) => if s.fullbody {
                let p = put_all(m, body_row(pawn, repmgr, true));
                (
                    p.0,
                    if p.1 {
                        Some(Hold { update: true, scale })
                    } else {
                        None
                    },
                )
            } else {
                (m, Some(Hold { update: false, scale }))
            },
        }
    }
}

/// Whether anything is held on the pawn at all.
pub fn holds_anything(s: &PawnState) -> (r: bool)
    ensures
        r == (s.fullbody || scale_forced(s.scale)),
{
    s.fullbody || (s.scale != 0 && s.scale != 0x8000_0000_0000_0000)
}

/// Once per frame, after the pawn's own update: hold the third-person body and the forced scale.
/// Nothing is done while neither is held, without a pawn, or on a fault.
pub fn hold_pawn_state(m: &mut Memory, s: &PawnState, pawn: u64) -> (r: Option<Hold>)
    ensures
        (final(m)@, r) == held(old(m)@, *s, pawn),
{
    if !holds_anything(s) || pawn == 0 {
        return None;
    }
    let repmgr = m.read_u64(pawn.wrapping_add(PAWN_REPMGR))?;
    let scale = if s.scale != 0 && s.scale != 0x8000_0000_0000_0000 {
        Some(s.scale)
    } else {
        None
    };
    if s.fullbody {
        let row = body_stores(pawn, repmgr, true);
        if !m.write_all(&row) {
            return None;
        }
    }
    Some(Hold { update: s.fullbody, scale })
}

/// The parameter block that scales an actor: the scale along each axis.
pub open spec fn scale_parms(scale: u64) -> Seq<u8> {
    le64(scale) + le64(scale) + le64(scale)
}

/// Build the parameter block that scales an actor.
pub fn scale_block(scale: u64) -> (r: Vec<u8>)
    ensures
        r@ == scale_parms(scale),
{
    let mut p: Vec<u8> = Vec::new();
    crate::bytes::push_u64(&mut p, scale);
    crate::bytes::push_u64(&mut p, scale);
    crate::bytes::push_u64(&mut p, scale);
    assert(p@ =~= scale_parms(scale));
    p
}

/// How many bytes of the clock a report shows.
pub const CLOCK_BYTES: u64 = 0x48;

/// The words of the clock from offset `o` on, each with its offset, up to the first fault.
pub open spec fn clock_words(m: Bytes, t: u64, o: int) -> Seq<(u64, u32)>
    decreases CLOCK_BYTES + 4 - o,
{
    if o < 0 || o >= CLOCK_BYTES {
        Seq::empty()
    } else {
        match u32_at(m, off(t, o as u64)) {
            None => Seq::empty(),
            Some(v) => seq![(o as u64, v)] + clock_words(m, t, o + 4),
        }
    }
}

/// A report on the clock.
pub struct ClockReport {
    /// Tick rate and tick length.
    pub rate: Option<(i16, u32)>,
    /// The clock's words, by offset.
    pub words: Vec<(u64, u32)>,
}

/// The tick rate and the tick length of the clock at `t`.
pub open spec fn clock_rate(m: Bytes, t: u64) -> Option<(i16, u32)> {
    match (i16_at(m, off(t, GTG_TICK_RATE)), u32_at(m, off(t, GTG_TICK_LENGTH))) {
        (Some(rate), Some(length)) => Some((rate, length)),
        _ => None,
    }
}

/// Report on the clock at `t`: its rate, and its first words. `None` if there is no clock; a
/// fault ends the report.
pub fn diag_time(m: &mut Memory, t: u64) -> (r: Option<ClockReport>)
    ensures
        r is None <==> t == 0,
        r matches Some(c) ==> {
            &&& c.rate == clock_rate(old(m)@, t)
            &&& c.words@ == if c.rate is Some {
                clock_words(old(m)@, t, 0)
            } else {
                Seq::empty()
            }
        },
        final(m)@ == old(m)@,
{
    if t == 0 {
        return None;
    }
    let mut words: Vec<(u64, u32)> = Vec::new();
    let rate = m.read_i16(t.wrapping_add(GTG_TICK_RATE));
    let length = m.read_u32(t.wrapping_add(GTG_TICK_LENGTH));
    let rate = match (rate, length) {
        (Some(r), Some(l)) => Some((r, l)),
        _ => return Some(ClockReport { rate: None, words }),
    };
    let ghost all = clock_words(m@, t, 0);
    let mut o: u64 = 0;
    assert(words@ + all =~= all);
    while o < CLOCK_BYTES
        invariant
            o <= CLOCK_BYTES,
            o % 4 == 0,
            t != 0,
            m@ == old(m)@,
            rate == clock_rate(old(m)@, t),
            rate is Some,
            all == clock_words(old(m)@, t, 0),
            words@ + clock_words(m@, t, o as int) == all,
        decreases CLOCK_BYTES - o,
    {
        match m.read_u32(t.wrapping_add(o)) {
            None => {
                assert(words@ + Seq::<(u64, u32)>::empty() =~= words@);
                return Some(ClockReport { rate, words });
            },
            Some(v) => {
                let ghost prior = words@;
                let ghost rest = clock_words(m@, t, o + 4);
                words.push((o, v));
                assert(prior + (seq![(o, v)] + rest) =~= words@ + rest);
            },
        }
        o += 4;
    }
    assert(words@ + Seq::<(u64, u32)>::empty() =~= words@);
    Some(ClockReport { rate, words })
}

/// While the third-person body is shown, the meshes of the first-person arms are hidden from their
/// owner and all others are shown to it. Switching it off shows the arms to their owner and in the
/// game, hides the body's own meshes from their owner, and leaves shadows and translucent copies
/// alone.
pub proof fn law_mesh_flags(name: Seq<char>)
    ensures
        mentions(name, "FP"@) ==> mesh_steps(name, true)[0].parms == seq![1u8],
        !mentions(name, "FP"@) ==> mesh_steps(name, true)[0].parms == seq![0u8],
        mentions(name, "FP"@) ==> {
            let v = mesh_steps(name, false);
            &&& v.len() == 3
            &&& v[0].name == "SetOwnerNoSee"@ && v[0].parms == seq![0u8]
            &&& v[1].name == "SetVisibility"@ && v[1].parms == seq![1u8, 0u8]
            &&& v[2].name == "SetHiddenInGame"@ && v[2].parms == seq![0u8, 0u8]
        },
        !mentions(name, "FP"@) && (mentions(name, "Shadow"@) || mentions(name, "Translucent"@))
            ==> mesh_steps(name, false).len() == 0,
        !mentions(name, "FP"@) && !mentions(name, "Shadow"@) && !mentions(name, "Translucent"@) ==> {
            let v = mesh_steps(name, false);
            v.len() == 1 && v[0].name == "SetOwnerNoSee"@ && v[0].parms == seq![1u8]
        },
{
}

/// With the body shown, the pawn's representation is the world's, number 1, and its perspective the
/// third person's, 2; with the body put back they are 0 and the first person's, 1.
pub proof fn law_body_stands(m: Bytes, pawn: u64, on: bool)
    requires
        full_body(m, pawn, on).1,
    ensures
        ({
            let n = full_body(m, pawn, on).0;
            &&& u32_at(n, off(pawn, 0x3f8)) == Some(
                if on {
                    1u32
                } else {
                    0
                },
            )
            &&& u8_at(n, off(pawn, 0x3c1)) == Some(
                if on {
                    2u8
                } else {
                    1
                },
            )
        }),
{
    let repmgr = u64_at(m, off(pawn, PAWN_REPMGR))->0;
    let row = body_row(pawn, repmgr, on);
    law_row_stands(m, row, row.len() - 2);
    law_row_stands(m, row, row.len() - 1);
}

/// The representation manager gets the world's representation and its gate opened with the body,
/// and none without it.
pub proof fn law_manager_row(pawn: u64, repmgr: u64)
    requires
        repmgr != 0,
    ensures
        body_row(pawn, repmgr, true)[0] == Put::Word(off(repmgr, 0x188), 1),
        body_row(pawn, repmgr, true)[1] == Put::Byte(off(repmgr, 0x13c), 1),
        body_row(pawn, repmgr, false)[0] == Put::Word(off(repmgr, 0x188), 0xffff_ffff),
        body_row(pawn, repmgr, true).len() == 4,
        body_row(pawn, repmgr, false).len() == 3,
        body_row(pawn, 0, true).len() == 2,
        body_row(pawn, 0, false).len() == 2,
{
}

/// What is held on a frame: nothing where neither the body nor a size is held. A held body is
/// written again, and a held size is handed on as it is; only a held body asks for an update.
pub proof fn law_held(m: Bytes, s: PawnState, pawn: u64)
    ensures
        !s.fullbody && (s.scale == 0 || s.scale == 0x8000_0000_0000_0000) ==> held(m, s, pawn) == (
            m,
            None::<Hold>,
        ),
        pawn == 0 ==> held(m, s, pawn) == (m, None::<Hold>),
        !s.fullbody ==> held(m, s, pawn).0 == m,
        held(m, s, pawn).1 matches Some(h) ==> {
            &&& h.update == s.fullbody
            &&& h.scale is Some <==> s.scale != 0 && s.scale != 0x8000_0000_0000_0000
            &&& h.scale matches Some(x) ==> x == s.scale
        },
{
}

/// The size goes to all three axes.
pub proof fn law_scale_block(scale: u64, i: int)
    requires
        0 <= i < 8,
    ensures
        scale_parms(scale).len() == 24,
        scale_parms(scale)[i] == le64(scale)[i],
        scale_parms(scale)[8 + i] == le64(scale)[i],
        scale_parms(scale)[16 + i] == le64(scale)[i],
{
}

/// A mesh belongs to the pawn where the pawn or its actor is among its first five owners, each the
/// outer object of the one before.
pub proof fn law_owners(m: Bytes, owner: u64, outer: u64, pawn: u64, actor: u64, hops: nat)
    requires
        pawn != 0,
        owner != 0,
        u64_at(m, off(owner, 0x20)) == Some(outer),
    ensures
        hops > 0 ==> owned_by(m, pawn, pawn, actor, hops) == Some(true),
        hops > 0 && actor != 0 ==> owned_by(m, actor, pawn, actor, hops) == Some(true),
        owned_by(m, owner, pawn, actor, 0) == Some(false),
        owned_by(m, 0, pawn, actor, hops) == Some(false),
        owner != pawn && owner != actor && hops > 0 ==> owned_by(m, owner, pawn, actor, hops)
            == owned_by(m, outer, pawn, actor, (hops - 1) as nat),
        MAX_OWNERS == 5,
{
}

} // verus!
