//! What binding the player's controls to a unit changes, and that a release puts it back.

use vstd::prelude::*;

use super::{
    Bound, Links, Possess, bound, controlling_state, held_anchor, held_bindings, hook_bound,
    or_else, released, released_state,
};
use crate::hooks::sim_seed::{
    Install, SEED_BUILDER_RVA, SeedHook, install_outcome, patch_bytes, seed_removed,
    trampoline_bytes,
};
use crate::ieee::negated32;
use crate::memory::{
    Bytes, agree, apart, bytes_at, dist, elem, i16_at, i8_at, inside, lemma_agree16, lemma_agree32,
    lemma_apart, lemma_put16_frame, lemma_put32_frame, lemma_put_bytes, lemma_put_bytes_apart,
    lemma_put_bytes_read, off, pattern16, pattern32, pattern8, put16, put32, put_bytes, same_but,
    signed16, signed32, signed8, span, store16, store32, store8, u16_at, u32_at, u8_at,
};
use crate::simtime::ai::{actor, state_of, state_set, state_slot};
use crate::simtime::code::{TURN_CLAMP_NEG_RVA, TURN_CLAMP_POS_RVA, clamp_set};
use crate::simtime::objects::{BODY_POS, NO_HANDLE, body_of, live, local_player, unit_slot};
use crate::simtime::player::{control_slot, slot_set, slot_value, team_slot};
use crate::simtime::unit::{BODY_AI_REF, BODY_OWNER, NO_OWNER, ai_ref, ai_ref_set, owner_set};

verus! {

/// The four bytes at `a`, where there are any to write.
pub open spec fn word_at(m: Bytes, a: u64) -> Set<u64> {
    if u32_at(m, a) is Some {
        span(a, 4)
    } else {
        Set::empty()
    }
}

/// The two bytes at `a`, where there are any to write.
pub open spec fn half_at(m: Bytes, a: u64) -> Set<u64> {
    if u16_at(m, a) is Some {
        span(a, 2)
    } else {
        Set::empty()
    }
}

/// The four bytes of a slot that is resolved.
pub open spec fn slot_at(m: Bytes, s: u64) -> Set<u64> {
    if s == 0 {
        Set::empty()
    } else {
        word_at(m, s)
    }
}

// ---------------- the steps ----------------

proof fn lemma_word_bytes(m: Bytes, n: Bytes, a: u64)
    requires
        u32_at(m, a) is Some,
        u32_at(n, a) == u32_at(m, a),
    ensures
        forall|x: u64| #[trigger] inside(x, a, 4) ==> u8_at(n, x) == u8_at(m, x),
{
    reveal(u32_at);
    lemma_half_bytes(m, n, a);
    lemma_half_bytes(m, n, off(a, 2));
    assert forall|x: u64| #[trigger] inside(x, a, 4) implies u8_at(n, x) == u8_at(m, x) by {
        assert(inside(x, a, 2) || inside(x, off(a, 2), 2));
    }
}

proof fn lemma_half_bytes(m: Bytes, n: Bytes, a: u64)
    requires
        u16_at(m, a) is Some,
        u16_at(n, a) == u16_at(m, a),
    ensures
        forall|x: u64| #[trigger] inside(x, a, 2) ==> u8_at(n, x) == u8_at(m, x),
{
    reveal(u16_at);
    assert forall|x: u64| #[trigger] inside(x, a, 2) implies u8_at(n, x) == u8_at(m, x) by {
        assert(x == a || x == off(a, 1));
    }
}

pub(crate) proof fn lemma_readable(m: Bytes, n: Bytes, w: Set<u64>, a: u64)
    requires
        same_but(m, n, w),
    ensures
        u32_at(n, a) is Some == u32_at(m, a) is Some,
        u16_at(n, a) is Some == u16_at(m, a) is Some,
        u8_at(n, a) is Some == u8_at(m, a) is Some,
{
    reveal(u32_at);
    reveal(u16_at);
}

/// A wider set leaves more out.
pub(crate) proof fn lemma_weaken(m: Bytes, n: Bytes, w: Set<u64>, v: Set<u64>)
    requires
        same_but(m, n, w),
        w.subset_of(v),
    ensures
        same_but(m, n, v),
{
}

pub(crate) proof fn lemma_write32(m: Bytes, n: Bytes, w: Set<u64>, a: u64, v: u32)
    requires
        same_but(m, n, w),
    ensures
        same_but(m, store32(n, a, v), w.union(word_at(m, a))),
{
    lemma_readable(m, n, w, a);
    if u32_at(n, a) is Some {
        lemma_put32_frame(n, a, v);
        let n1 = put32(n, a, v);
        assert(n1.dom() =~= n.dom()) by {
            reveal(put32);
            reveal(put16);
            reveal(u32_at);
            reveal(u16_at);
        }
    }
    let n1 = store32(n, a, v);
    assert forall|x: u64| !w.union(word_at(m, a)).contains(x) implies #[trigger] u8_at(n1, x)
        == u8_at(m, x) by {
        assert(u8_at(n, x) == u8_at(m, x));
    }
}

pub(crate) proof fn lemma_write16(m: Bytes, n: Bytes, w: Set<u64>, a: u64, v: u16)
    requires
        same_but(m, n, w),
    ensures
        same_but(m, store16(n, a, v), w.union(half_at(m, a))),
{
    lemma_readable(m, n, w, a);
    if u16_at(n, a) is Some {
        lemma_put16_frame(n, a, v);
        let n1 = put16(n, a, v);
        assert(n1.dom() =~= n.dom()) by {
            reveal(put16);
            reveal(u16_at);
        }
    }
    let n1 = store16(n, a, v);
    assert forall|x: u64| !w.union(half_at(m, a)).contains(x) implies #[trigger] u8_at(n1, x)
        == u8_at(m, x) by {
        assert(u8_at(n, x) == u8_at(m, x));
    }
}

pub(crate) proof fn lemma_write8(m: Bytes, n: Bytes, w: Set<u64>, a: u64, v: u8)
    requires
        same_but(m, n, w),
    ensures
        same_but(m, store8(n, a, v), w.union(span(a, 1))),
{
    let n1 = store8(n, a, v);
    assert(n1.dom() =~= n.dom());
    assert forall|x: u64| !w.union(span(a, 1)).contains(x) implies #[trigger] u8_at(n1, x)
        == u8_at(m, x) by {
        assert(x != a);
        assert(u8_at(n, x) == u8_at(m, x));
    }
}

proof fn lemma_back32(m: Bytes, n: Bytes, w: Set<u64>, a: u64, v: u32)
    requires
        same_but(m, n, w),
        u32_at(m, a) is Some ==> u32_at(m, a) == Some(v),
    ensures
        same_but(m, store32(n, a, v), w.difference(word_at(m, a))),
{
    lemma_write32(m, n, w, a, v);
    lemma_readable(m, n, w, a);
    let n1 = store32(n, a, v);
    if u32_at(m, a) is Some {
        lemma_put32_frame(n, a, v);
        lemma_word_bytes(m, n1, a);
        assert forall|x: u64| !w.difference(word_at(m, a)).contains(x) implies #[trigger] u8_at(
            n1,
            x,
        ) == u8_at(m, x) by {
            if inside(x, a, 4) {
            } else {
                assert(!w.contains(x));
                assert(u8_at(n, x) == u8_at(m, x));
            }
        }
    }
}

proof fn lemma_back16(m: Bytes, n: Bytes, w: Set<u64>, a: u64, v: u16)
    requires
        same_but(m, n, w),
        u16_at(m, a) is Some ==> u16_at(m, a) == Some(v),
    ensures
        same_but(m, store16(n, a, v), w.difference(half_at(m, a))),
{
    lemma_write16(m, n, w, a, v);
    lemma_readable(m, n, w, a);
    let n1 = store16(n, a, v);
    if u16_at(m, a) is Some {
        lemma_put16_frame(n, a, v);
        lemma_half_bytes(m, n1, a);
        assert forall|x: u64| !w.difference(half_at(m, a)).contains(x) implies #[trigger] u8_at(
            n1,
            x,
        ) == u8_at(m, x) by {
            if inside(x, a, 2) {
            } else {
                assert(!w.contains(x));
                assert(u8_at(n, x) == u8_at(m, x));
            }
        }
    }
}

proof fn lemma_back8(m: Bytes, n: Bytes, w: Set<u64>, a: u64, v: u8)
    requires
        same_but(m, n, w),
        u8_at(m, a) == Some(v),
    ensures
        same_but(m, store8(n, a, v), w.difference(span(a, 1))),
{
    let n1 = store8(n, a, v);
    assert(n1.dom() =~= n.dom());
    assert forall|x: u64| !w.difference(span(a, 1)).contains(x) implies #[trigger] u8_at(n1, x)
        == u8_at(m, x) by {
        if x == a {
        } else {
            assert(!inside(x, a, 1));
            assert(!w.contains(x));
            assert(u8_at(n, x) == u8_at(m, x));
        }
    }
}

pub(crate) proof fn lemma_read32(m: Bytes, n: Bytes, w: Set<u64>, a: u64)
    requires
        same_but(m, n, w),
        forall|x: u64| #[trigger] inside(x, a, 4) ==> !w.contains(x),
    ensures
        u32_at(n, a) == u32_at(m, a),
{
    assert(agree(n, m, a, 4));
    lemma_agree32(n, m, a);
}

proof fn lemma_read_bytes(m: Bytes, n: Bytes, w: Set<u64>, a: u64, k: nat)
    requires
        same_but(m, n, w),
        k <= 0x1_0000,
        forall|x: u64| #[trigger] inside(x, a, k as int) ==> !w.contains(x),
    ensures
        bytes_at(n, a, k) == bytes_at(m, a, k),
{
    assert forall|i: int| 0 <= i < k implies u8_at(n, #[trigger] elem(a, i, 1)) == u8_at(
        m,
        elem(a, i, 1),
    ) by {
        assert(dist(a, elem(a, i, 1)) == i);
        assert(inside(elem(a, i, 1), a, k as int));
    }
    if bytes_at(m, a, k) is Some {
        assert(bytes_at(n, a, k)->0 =~= bytes_at(m, a, k)->0);
    }
}

proof fn lemma_write_bytes(m: Bytes, n: Bytes, w: Set<u64>, a: u64, s: Seq<u8>)
    requires
        same_but(m, n, w),
        s.len() <= 0x1_0000,
        bytes_at(m, a, s.len()) is Some,
    ensures
        same_but(m, put_bytes(n, a, s), w.union(span(a, s.len() as int))),
{
    let n1 = put_bytes(n, a, s);
    assert forall|x: u64| n1.dom().contains(x) == n.dom().contains(x) by {
        lemma_put_bytes(n, a, s, x);
        let d = dist(a, x);
        if d < s.len() {
            assert(elem(a, d, 1) == x);
            assert(m.dom().contains(elem(a, d, 1)));
        }
        assert(u8_at(n1, x) is Some == n1.dom().contains(x));
    }
    assert(n1.dom() =~= n.dom());
    assert forall|x: u64|
        !w.union(span(a, s.len() as int)).contains(x) implies #[trigger] u8_at(n1, x) == u8_at(
        m,
        x,
    ) by {
        lemma_put_bytes(n, a, s, x);
        assert(u8_at(n, x) == u8_at(m, x));
    }
}

proof fn lemma_back_bytes(m: Bytes, n: Bytes, w: Set<u64>, a: u64, s: Seq<u8>)
    requires
        same_but(m, n, w),
        s.len() <= 0x1_0000,
        bytes_at(m, a, s.len()) == Some(s),
    ensures
        same_but(m, put_bytes(n, a, s), w.difference(span(a, s.len() as int))),
{
    lemma_write_bytes(m, n, w, a, s);
    let n1 = put_bytes(n, a, s);
    assert forall|x: u64|
        !w.difference(span(a, s.len() as int)).contains(x) implies #[trigger] u8_at(n1, x)
        == u8_at(m, x) by {
        lemma_put_bytes(n, a, s, x);
        let d = dist(a, x);
        if d < s.len() {
            assert(elem(a, d, 1) == x);
            assert(m.dom().contains(elem(a, d, 1)));
            assert((bytes_at(m, a, s.len())->0)[d] == m[x]);
        } else {
            assert(!w.contains(x));
            assert(u8_at(n, x) == u8_at(m, x));
        }
    }
}

// ---------------- the fields ----------------

/// Where the seed builder is.
pub open spec fn builder(l: Links) -> u64 {
    off(l.sim_base, SEED_BUILDER_RVA)
}

/// Where the trampoline is, or would be.
pub open spec fn trampoline(l: Links, hook: SeedHook) -> u64 {
    if hook.trampoline != 0 {
        hook.trampoline
    } else {
        l.fresh
    }
}

/// The fields that binding the controls to the unit `h` writes, each with its length: the state
/// of the AI, the reference to the AI, the owner, the player's team, the two limits of the turn
/// rate, the two bindings, the seed builder's first bytes, and the trampoline. Last comes the
/// place of the player's own unit, the streaming anchor, which every tick moves. A field that is
/// not resolved has no length.
pub open spec fn fields(m: Bytes, l: Links, hook: SeedHook, h: u32) -> Seq<(u64, int)> {
    let body = body_of(m, l.tls, h);
    seq![
        (state_slot(m, l.tls, h), length(state_slot(m, l.tls, h), 4)),
        (off(body, BODY_AI_REF), length(body, 4)),
        (off(body, BODY_OWNER), length(body, 2)),
        (team_slot(m, l.tls), length(team_slot(m, l.tls), 1)),
        (off(l.sim_base, TURN_CLAMP_POS_RVA), length(l.sim_base, 4)),
        (off(l.sim_base, TURN_CLAMP_NEG_RVA), length(l.sim_base, 4)),
        (unit_slot(m, l.tls), length(unit_slot(m, l.tls), 4)),
        (control_slot(m, l.tls), length(control_slot(m, l.tls), 4)),
        (builder(l), length(l.sim_base, 15)),
        (trampoline(l, hook), length(trampoline(l, hook), 29)),
        (off(anchor_body(m, l.tls), BODY_POS), length(anchor_body(m, l.tls), 12)),
    ]
}

/// The handle of the player's own unit, which a release puts back.
pub open spec fn own_handle(m: Bytes, tls: u64) -> u32 {
    or_else(slot_value(m, unit_slot(m, tls)), NO_HANDLE)
}

/// The body of the player's own unit, the streaming anchor.
pub open spec fn anchor_body(m: Bytes, tls: u64) -> u64 {
    body_of(m, tls, own_handle(m, tls))
}

/// The place of the streaming anchor.
pub open spec fn anchor_place(m: Bytes, tls: u64) -> Set<u64> {
    span(off(anchor_body(m, tls), BODY_POS), length(anchor_body(m, tls), 12))
}

/// The length of a field that is found through `root`.
pub open spec fn length(root: u64, k: int) -> int {
    if root == 0 {
        0
    } else {
        k
    }
}

/// No two of the fields overlap.
pub open spec fn separate(f: Seq<(u64, int)>) -> bool {
    forall|i: int, j: int|
        0 <= i < f.len() && 0 <= j < f.len() && i != j ==> apart(
            #[trigger] f[i].0,
            f[i].1,
            #[trigger] f[j].0,
            f[j].1,
        )
}

/// The four bytes at `a`, where the field is resolved.
pub open spec fn word_if(m: Bytes, resolved: bool, a: u64) -> Set<u64> {
    if resolved {
        word_at(m, a)
    } else {
        Set::empty()
    }
}

/// The reference to the unit's AI.
pub open spec fn ai_field(m: Bytes, tls: u64, h: u32) -> Set<u64> {
    word_if(m, body_of(m, tls, h) != 0, off(body_of(m, tls, h), BODY_AI_REF))
}

/// The unit's owner.
pub open spec fn owner_field(m: Bytes, tls: u64, h: u32) -> Set<u64> {
    if body_of(m, tls, h) != 0 {
        half_at(m, off(body_of(m, tls, h), BODY_OWNER))
    } else {
        Set::empty()
    }
}

/// The addresses of data that binding changes and release puts back.
pub open spec fn data_changed(m: Bytes, l: Links, hook: SeedHook, h: u32) -> Set<u64> {
    let o = bound(m, l, 0, hook, h);
    slot_at(m, state_slot(m, l.tls, h)).union(ai_field(m, l.tls, h)).union(
        if o.b.old_team is Some {
            span(team_slot(m, l.tls), 1)
        } else {
            Set::empty()
        },
    ).union(word_if(m, o.clamp != 0, off(l.sim_base, TURN_CLAMP_POS_RVA))).union(
        word_if(m, o.clamp != 0, off(l.sim_base, TURN_CLAMP_NEG_RVA)),
    ).union(slot_at(m, unit_slot(m, l.tls))).union(slot_at(m, control_slot(m, l.tls))).union(
        owner_field(m, l.tls, h),
    )
}

/// The addresses that binding changes and release puts back: those of data, and the first bytes
/// of the seed builder, where the detour is installed.
pub open spec fn changed(m: Bytes, l: Links, hook: SeedHook, h: u32) -> Set<u64> {
    data_changed(m, l, hook, h).union(
        if bound(m, l, 0, hook, h).b.install is Done && bytes_at(m, builder(l), 15) is Some {
            span(builder(l), 15)
        } else {
            Set::empty()
        },
    )
}

/// The addresses of the trampoline.
pub open spec fn spare(l: Links, hook: SeedHook) -> Set<u64> {
    span(trampoline(l, hook), length(trampoline(l, hook), 29))
}

/// Everything that binding changes.
pub open spec fn touched(m: Bytes, l: Links, hook: SeedHook, h: u32) -> Set<u64> {
    changed(m, l, hook, h).union(spare(l, hook))
}

/// Everything that binding and the ticks after it change.
pub open spec fn worn(m: Bytes, l: Links, hook: SeedHook, h: u32) -> Set<u64> {
    touched(m, l, hook, h).union(anchor_place(m, l.tls))
}

/// What a release after ticks leaves: the trampoline, and the place of the streaming anchor.
pub open spec fn left(m: Bytes, l: Links, hook: SeedHook) -> Set<u64> {
    spare(l, hook).union(anchor_place(m, l.tls))
}

/// The player that owns a unit, by index.
pub open spec fn owner_of(m: Bytes, tls: u64, h: u32) -> Option<i16> {
    if body_of(m, tls, h) == 0 {
        None
    } else {
        i16_at(m, off(body_of(m, tls, h), BODY_OWNER))
    }
}

/// What a release leaves of a unit that had an owner: its owner too.
pub open spec fn left_behind(m: Bytes, l: Links, hook: SeedHook, h: u32) -> Set<u64> {
    left(m, l, hook).union(owner_field(m, l.tls, h))
}

/// The unit has no owner, wherever its owner can be read.
pub open spec fn unowned(m: Bytes, tls: u64, h: u32) -> bool {
    owner_of(m, tls, h) is None || owner_of(m, tls, h) == Some(NO_OWNER)
}

/// Whatever the addresses in `w` hold, the fields are found at the same addresses, and the unit
/// is as much alive. The state of the AI is found through the reference to the AI.
pub open spec fn rooted_in(m: Bytes, l: Links, h: u32, w: Set<u64>) -> bool {
    &&& forall|n: Bytes| #[trigger]
        same_but(m, n, w) ==> {
            &&& body_of(n, l.tls, h) == body_of(m, l.tls, h)
            &&& live(n, l.tls, h) == live(m, l.tls, h)
            &&& body_of(n, l.tls, own_handle(m, l.tls)) == anchor_body(m, l.tls)
            &&& local_player(n, l.tls) == local_player(m, l.tls)
            &&& unit_slot(n, l.tls) == unit_slot(m, l.tls)
            &&& control_slot(n, l.tls) == control_slot(m, l.tls)
        }
    &&& forall|n: Bytes| #[trigger]
        same_but(m, n, w.difference(ai_field(m, l.tls, h))) ==> actor(n, l.tls, h) == actor(
            m,
            l.tls,
            h,
        )
}

/// The pointers that lead to the fields lie outside of them, and so does the salt that tells
/// whether the unit is alive.
#[verifier::opaque]
pub open spec fn rooted(m: Bytes, l: Links, hook: SeedHook, h: u32) -> bool {
    rooted_in(m, l, h, worn(m, l, hook, h))
}

/// With nothing but what binding changes in it changed, memory leads to the same fields.
proof fn lemma_at(m: Bytes, l: Links, hook: SeedHook, h: u32, n: Bytes)
    requires
        rooted(m, l, hook, h),
        same_but(m, n, touched(m, l, hook, h)),
    ensures
        body_of(n, l.tls, h) == body_of(m, l.tls, h),
        local_player(n, l.tls) == local_player(m, l.tls),
        unit_slot(n, l.tls) == unit_slot(m, l.tls),
        control_slot(n, l.tls) == control_slot(m, l.tls),
{
    lemma_rooted_touched(m, l, hook, h);
}

proof fn lemma_rooted_touched(m: Bytes, l: Links, hook: SeedHook, h: u32)
    requires
        rooted(m, l, hook, h),
    ensures
        rooted_in(m, l, h, touched(m, l, hook, h)),
{
    reveal(rooted);
    let w = worn(m, l, hook, h);
    let v = touched(m, l, hook, h);
    let ai = ai_field(m, l.tls, h);
    assert forall|n: Bytes| #[trigger] same_but(m, n, v) implies same_but(m, n, w) by {
        lemma_weaken(m, n, v, w);
    }
    assert forall|n: Bytes| #[trigger] same_but(m, n, v.difference(ai)) implies same_but(
        m,
        n,
        w.difference(ai),
    ) by {
        lemma_weaken(m, n, v.difference(ai), w.difference(ai));
    }
}

/// The fields hold what a release can put back: the player is bound to a unit wherever the slots
/// can be read, the two limits of the turn rate are opposite and not zero, and a trampoline that
/// is there already was made of the builder's own bytes. Nothing is kept of an earlier binding.
pub open spec fn restorable(
    s: Possess,
    m: Bytes,
    l: Links,
    hook: SeedHook,
    h: u32,
) -> bool {
    let rate = u32_at(m, off(l.sim_base, TURN_CLAMP_POS_RVA));
    let least = u32_at(m, off(l.sim_base, TURN_CLAMP_NEG_RVA));
    &&& s.saved_player_team is None
    &&& !hook.installed
    &&& slot_value(m, unit_slot(m, l.tls)) != Some(NO_HANDLE)
    &&& slot_value(m, control_slot(m, l.tls)) != Some(NO_HANDLE)
    &&& l.sim_base != 0 ==> {
        &&& builder(l) != 0
        &&& rate is Some ==> rate != Some(0u32) && (least is None || least == Some(
            negated32(rate->0),
        ))
    }
    &&& trampoline_right(m, l, hook)
}

/// A trampoline that is there already was made of the builder's own bytes.
pub open spec fn trampoline_right(m: Bytes, l: Links, hook: SeedHook) -> bool {
    l.sim_base != 0 && hook.trampoline != 0 ==> bytes_at(m, hook.trampoline, 15) == bytes_at(
        m,
        builder(l),
        15,
    )
}

/// Where the detour was installed, the trampoline in `n` holds the builder's bytes of `m`.
pub open spec fn code_kept(m: Bytes, n: Bytes, l: Links, hook: SeedHook, o: Bound) -> bool {
    o.b.install is Done && bytes_at(m, builder(l), 15) is Some ==> {
        &&& o.b.install == (Install::Done { target: builder(l) })
        &&& l.sim_base != 0
        &&& o.trampoline != 0
        &&& o.trampoline == trampoline(l, hook)
        &&& bytes_at(n, trampoline(l, hook), 15) == bytes_at(m, builder(l), 15)
    }
}

pub(crate) proof fn lemma_sep(f: Seq<(u64, int)>, i: int, j: int, x: u64)
    requires
        separate(f),
        0 <= i < f.len(),
        0 <= j < f.len(),
        i != j,
        inside(x, f[i].0, f[i].1),
    ensures
        !inside(x, f[j].0, f[j].1),
{
    assert(apart(f[i].0, f[i].1, f[j].0, f[j].1));
}

pub(crate) proof fn lemma_write_slot(m: Bytes, n: Bytes, w: Set<u64>, a: u64, v: u32)
    requires
        same_but(m, n, w),
    ensures
        same_but(m, slot_set(n, a, v), w.union(slot_at(m, a))),
{
    if a != 0 {
        lemma_write32(m, n, w, a, v);
    }
}

proof fn lemma_back_slot(m: Bytes, n: Bytes, w: Set<u64>, a: u64, v: u32)
    requires
        same_but(m, n, w),
        slot_value(m, a) is Some ==> slot_value(m, a) == Some(v),
    ensures
        same_but(m, slot_set(n, a, v), w.difference(slot_at(m, a))),
{
    if a != 0 {
        lemma_back32(m, n, w, a, v);
    }
}

pub(crate) proof fn lemma_chain(m: Bytes, p: Bytes, n: Bytes, v: Set<u64>, w: Set<u64>)
    requires
        same_but(m, p, v),
        same_but(p, n, w),
    ensures
        same_but(m, n, v.union(w)),
{
    assert forall|x: u64| !v.union(w).contains(x) implies #[trigger] u8_at(n, x) == u8_at(m, x) by {
        assert(u8_at(p, x) == u8_at(m, x));
    }
}

// ---------------- binding ----------------

/// What binding keeps is what was there before, and memory is otherwise as it was.
pub(crate) proof fn lemma_binding(m: Bytes, l: Links, hook: SeedHook, h: u32)
    requires
        separate(fields(m, l, hook, h)),
        rooted(m, l, hook, h),
        !hook.installed,
        trampoline_right(m, l, hook),
        l.sim_base != 0 ==> u32_at(m, off(l.sim_base, TURN_CLAMP_POS_RVA)) != Some(0u32),
    ensures
        ({
            let o = bound(m, l, 0, hook, h);
            let stock = u32_at(m, off(l.sim_base, TURN_CLAMP_POS_RVA));
            &&& o.b.braindead == state_of(m, l.tls, h)
            &&& o.b.old_ai == ai_ref(m, l.tls, h)
            &&& o.b.old_team matches Some(t) ==> team_slot(m, l.tls) != 0 && i8_at(
                m,
                team_slot(m, l.tls),
            ) == Some(t)
            &&& o.clamp == if l.sim_base != 0 && stock is Some {
                stock->0
            } else {
                0
            }
            &&& o.b.old_player == slot_value(m, unit_slot(m, l.tls))
            &&& o.b.old_control == slot_value(m, control_slot(m, l.tls))
            &&& same_but(m, o.m, touched(m, l, hook, h))
            &&& code_kept(m, o.m, l, hook, o)
        }),
{
    lemma_rooted_touched(m, l, hook, h);
    let f = fields(m, l, hook, h);
    let w = touched(m, l, hook, h);
    let o = bound(m, l, 0, hook, h);
    let tls = l.tls;
    let body = body_of(m, tls, h);
    let st = state_slot(m, tls, h);
    let ai = off(body, BODY_AI_REF);
    let team = team_slot(m, tls);
    // the state of the AI
    let n1 = state_set(m, tls, h, 0);
    let w1 = slot_at(m, st);
    assert(same_but(m, n1, w1)) by {
        lemma_write_slot(m, m, Set::empty(), st, pattern32(0));
        assert(Set::<u64>::empty().union(slot_at(m, st)) =~= w1);
    }
    lemma_weaken(m, n1, w1, w);
    // the reference to the AI
    assert(ai_ref(n1, tls, h) == ai_ref(m, tls, h)) by {
        if body != 0 {
            assert forall|x: u64| #[trigger] inside(x, ai, 4) implies !w1.contains(x) by {
                assert(f[1] == (ai, 4int));
                lemma_sep(f, 1, 0, x);
            }
            lemma_read32(m, n1, w1, ai);
        }
    }
    let n2 = ai_ref_set(n1, tls, h, NO_HANDLE);
    let w2 = w1.union(ai_field(m, tls, h));
    assert(same_but(m, n2, w2)) by {
        if body != 0 {
            lemma_write32(m, n1, w1, ai, NO_HANDLE);
        } else {
            assert(w2 =~= w1);
        }
    }
    lemma_weaken(m, n2, w2, w);
    assert(team_slot(n2, tls) == team);
    // the player's team
    let t3 = super::team_joined(n2, tls, h);
    let n3 = t3.0;
    let w3 = w2.union(
        if o.b.old_team is Some {
            span(team, 1)
        } else {
            Set::empty()
        },
    );
    assert(o.b.old_team == t3.2);
    assert(same_but(m, n3, w3) && (t3.2 matches Some(t) ==> team != 0 && i8_at(m, team) == Some(
        t,
    ))) by {
        if team != 0 {
            assert(inside(team, team, 1));
            assert(f[3] == (team, 1int));
            lemma_sep(f, 3, 0, team);
            lemma_sep(f, 3, 1, team);
            assert(!w2.contains(team));
            assert(u8_at(n2, team) == u8_at(m, team));
        }
        if t3.2 is Some {
            let v = pattern8(
                crate::memory::signed8((crate::simtime::unit::team_of(n2, tls, h)->0 % 0x100) as u8),
            );
            lemma_write8(m, n2, w2, team, v);
        } else {
            assert(n3 == n2);
            assert(w3 =~= w2);
        }
    }
    lemma_weaken(m, n3, w3, w);
    lemma_binding_rest(m, l, hook, h, n3, w3);
}

/// The fields that are written after the AI and the player's team.
proof fn lemma_binding_rest(m: Bytes, l: Links, hook: SeedHook, h: u32, n3: Bytes, w3: Set<u64>)
    requires
        separate(fields(m, l, hook, h)),
        rooted(m, l, hook, h),
        !hook.installed,
        trampoline_right(m, l, hook),
        l.sim_base != 0 ==> u32_at(m, off(l.sim_base, TURN_CLAMP_POS_RVA)) != Some(0u32),
        n3 == super::team_joined(super::ai_detached(m, l.tls, h).0, l.tls, h).0,
        w3 == slot_at(m, state_slot(m, l.tls, h)).union(ai_field(m, l.tls, h)).union(
            if bound(m, l, 0, hook, h).b.old_team is Some {
                span(team_slot(m, l.tls), 1)
            } else {
                Set::empty()
            },
        ),
        bound(m, l, 0, hook, h).b.old_team is Some ==> team_slot(m, l.tls) != 0,
        same_but(m, n3, w3),
    ensures
        ({
            let o = bound(m, l, 0, hook, h);
            let stock = u32_at(m, off(l.sim_base, TURN_CLAMP_POS_RVA));
            &&& o.clamp == if l.sim_base != 0 && stock is Some {
                stock->0
            } else {
                0
            }
            &&& o.b.old_player == slot_value(m, unit_slot(m, l.tls))
            &&& o.b.old_control == slot_value(m, control_slot(m, l.tls))
            &&& same_but(m, o.m, touched(m, l, hook, h))
            &&& code_kept(m, o.m, l, hook, o)
        }),
{
    lemma_rooted_touched(m, l, hook, h);
    let f = fields(m, l, hook, h);
    let w = touched(m, l, hook, h);
    let o = bound(m, l, 0, hook, h);
    let tls = l.tls;
    let p = off(l.sim_base, TURN_CLAMP_POS_RVA);
    let q = off(l.sim_base, TURN_CLAMP_NEG_RVA);
    // the turn rate
    let t4 = super::clamp_widened(n3, l.sim_base, 0);
    let n4 = t4.0;
    if l.sim_base != 0 {
        assert(u32_at(n3, p) == u32_at(m, p)) by {
            assert forall|x: u64| #[trigger] inside(x, p, 4) implies !w3.contains(x) by {
                assert(f[4] == (p, 4int));
                lemma_sep(f, 4, 0, x);
                lemma_sep(f, 4, 1, x);
                lemma_sep(f, 4, 3, x);
            }
            lemma_read32(m, n3, w3, p);
        }
    }
    let w4 = w3.union(word_if(m, o.clamp != 0, p)).union(word_if(m, o.clamp != 0, q));
    assert(same_but(m, n4, w4)) by {
        if o.clamp != 0 {
            let v = crate::ieee::magnitude32(super::CONTROL_TURN_RATE);
            lemma_write32(m, n3, w3, p, v);
            lemma_write32(
                m,
                store32(n3, p, v),
                w3.union(word_at(m, p)),
                q,
                negated32(v),
            );
        } else {
            assert(w4 =~= w3);
        }
    }
    lemma_weaken(m, n4, w4, w);
    lemma_binding_slots(m, l, hook, h, n4, w4);
}

/// The two bindings, the owner and the code.
proof fn lemma_binding_slots(m: Bytes, l: Links, hook: SeedHook, h: u32, n4: Bytes, w4: Set<u64>)
    requires
        separate(fields(m, l, hook, h)),
        rooted(m, l, hook, h),
        !hook.installed,
        trampoline_right(m, l, hook),
        n4 == super::clamp_widened(
            super::team_joined(super::ai_detached(m, l.tls, h).0, l.tls, h).0,
            l.sim_base,
            0,
        ).0,
        w4 == slot_at(m, state_slot(m, l.tls, h)).union(ai_field(m, l.tls, h)).union(
            if bound(m, l, 0, hook, h).b.old_team is Some {
                span(team_slot(m, l.tls), 1)
            } else {
                Set::empty()
            },
        ).union(
            word_if(
                m,
                bound(m, l, 0, hook, h).clamp != 0,
                off(l.sim_base, TURN_CLAMP_POS_RVA),
            ),
        ).union(
            word_if(
                m,
                bound(m, l, 0, hook, h).clamp != 0,
                off(l.sim_base, TURN_CLAMP_NEG_RVA),
            ),
        ),
        bound(m, l, 0, hook, h).b.old_team is Some ==> team_slot(m, l.tls) != 0,
        bound(m, l, 0, hook, h).clamp != 0 ==> l.sim_base != 0,
        same_but(m, n4, w4),
        w4.subset_of(touched(m, l, hook, h)),
    ensures
        ({
            let o = bound(m, l, 0, hook, h);
            &&& o.b.old_player == slot_value(m, unit_slot(m, l.tls))
            &&& o.b.old_control == slot_value(m, control_slot(m, l.tls))
            &&& same_but(m, o.m, touched(m, l, hook, h))
            &&& code_kept(m, o.m, l, hook, o)
        }),
{
    lemma_rooted_touched(m, l, hook, h);
    let f = fields(m, l, hook, h);
    let w = touched(m, l, hook, h);
    let o = bound(m, l, 0, hook, h);
    let tls = l.tls;
    let us = unit_slot(m, tls);
    let cs = control_slot(m, tls);
    let body = body_of(m, tls, h);
    lemma_weaken(m, n4, w4, w);
    // the unit that moves
    assert(slot_value(n4, us) == slot_value(m, us)) by {
        if us != 0 {
            assert forall|x: u64| #[trigger] inside(x, us, 4) implies !w4.contains(x) by {
                assert(f[6] == (us, 4int));
                lemma_sep(f, 6, 0, x);
                lemma_sep(f, 6, 1, x);
                lemma_sep(f, 6, 3, x);
                lemma_sep(f, 6, 4, x);
                lemma_sep(f, 6, 5, x);
            }
            lemma_read32(m, n4, w4, us);
        }
    }
    let n5 = slot_set(n4, us, h);
    let w5 = w4.union(slot_at(m, us));
    lemma_write_slot(m, n4, w4, us, h);
    lemma_weaken(m, n5, w5, w);
    // the unit that aims
    assert(slot_value(n5, cs) == slot_value(m, cs)) by {
        if cs != 0 {
            assert forall|x: u64| #[trigger] inside(x, cs, 4) implies !w5.contains(x) by {
                assert(f[7] == (cs, 4int));
                lemma_sep(f, 7, 0, x);
                lemma_sep(f, 7, 1, x);
                lemma_sep(f, 7, 3, x);
                lemma_sep(f, 7, 4, x);
                lemma_sep(f, 7, 5, x);
                lemma_sep(f, 7, 6, x);
            }
            lemma_read32(m, n5, w5, cs);
        }
    }
    let n6 = slot_set(n5, cs, h);
    let w6 = w5.union(slot_at(m, cs));
    lemma_write_slot(m, n5, w5, cs, h);
    lemma_weaken(m, n6, w6, w);
    // the owner
    let owner = owner_field(m, tls, h);
    let n7 = super::redirected(n4, tls, h).0;
    let w7 = w6.union(owner);
    assert(same_but(m, n7, w7)) by {
        if let Some((pcg, ph)) = local_player(m, tls) {
            if body != 0 {
                lemma_write16(
                    m,
                    n6,
                    w6,
                    off(body, BODY_OWNER),
                    pattern16(crate::memory::signed16((ph % 0x1_0000) as u16)),
                );
            } else {
                assert(w7 =~= w6);
            }
        } else {
            assert(n7 == n6);
            lemma_weaken(m, n6, w6, w7);
        }
    }
    assert(w7 == data_changed(m, l, hook, h));
    lemma_data_clear(m, l, hook, h);
    lemma_binding_code(m, l, hook, h, n7, w7);
}

/// The detour.
proof fn lemma_binding_code(m: Bytes, l: Links, hook: SeedHook, h: u32, n7: Bytes, w7: Set<u64>)
    requires
        !hook.installed,
        trampoline_right(m, l, hook),
        same_but(m, n7, w7),
        w7.subset_of(touched(m, l, hook, h)),
        ({
            let inst = install_outcome(hook, n7, l.sim_base, l.fresh, l.relay);
            let o = bound(m, l, 0, hook, h);
            o.m == inst.1 && o.b.install == inst.0 && o.trampoline == inst.2
        }),
        forall|x: u64|
            l.sim_base != 0 && #[trigger] inside(x, builder(l), 15) ==> !w7.contains(x),
        forall|x: u64|
            trampoline(l, hook) != 0 && #[trigger] inside(x, trampoline(l, hook), 29)
                ==> !w7.contains(x),
        l.sim_base != 0 && trampoline(l, hook) != 0 ==> apart(
            builder(l),
            15,
            trampoline(l, hook),
            29,
        ),
    ensures
        ({
            let o = bound(m, l, 0, hook, h);
            same_but(m, o.m, touched(m, l, hook, h)) && code_kept(m, o.m, l, hook, o)
        }),
{
    let w = touched(m, l, hook, h);
    let o = bound(m, l, 0, hook, h);
    let target = builder(l);
    let room = trampoline(l, hook);
    if o.b.install is Done {
        let pb = patch_bytes(l.relay);
        assert(pb.len() == 15);
        lemma_bytes_readable(m, n7, w7, target, 15);
        lemma_read_bytes(m, n7, w7, target, 15);
        if hook.trampoline != 0 {
            if bytes_at(m, target, 15) is Some {
                let w8 = w7.union(span(target, 15));
                lemma_write_bytes(m, n7, w7, target, pb);
                lemma_weaken(m, o.m, w8, w);
                assert forall|x: u64| #[trigger] inside(x, room, 15) implies !w8.contains(x) by {
                    assert(inside(x, room, 29));
                    lemma_apart(room, 29, target, 15);
                }
                lemma_read_bytes(m, o.m, w8, room, 15);
            } else {
                lemma_weaken(m, o.m, w7, w);
            }
        } else {
            let stolen = bytes_at(n7, target, 15)->0;
            let tb = trampoline_bytes(stolen, target);
            assert(tb.len() == 29);
            lemma_bytes_readable(m, n7, w7, l.fresh, 29);
            let n8 = put_bytes(n7, l.fresh, tb);
            lemma_write_bytes(m, n7, w7, l.fresh, tb);
            let w8 = w7.union(span(l.fresh, 29));
            lemma_bytes_readable(m, n8, w8, target, 15);
            lemma_write_bytes(m, n8, w8, target, pb);
            lemma_weaken(m, o.m, w8.union(span(target, 15)), w);
            lemma_put_bytes_read(n7, l.fresh, tb, 15);
            assert(tb.take(15) =~= stolen);
            lemma_put_bytes_apart(n8, target, pb, l.fresh, 15);
        }
    } else {
        lemma_weaken(m, o.m, w7, w);
    }
}

/// The data lies outside the code and the trampoline, and the code outside the trampoline.
proof fn lemma_data_clear(m: Bytes, l: Links, hook: SeedHook, h: u32)
    requires
        separate(fields(m, l, hook, h)),
        bound(m, l, 0, hook, h).b.old_team is Some ==> team_slot(m, l.tls) != 0,
        bound(m, l, 0, hook, h).clamp != 0 ==> l.sim_base != 0,
    ensures
        forall|x: u64|
            l.sim_base != 0 && #[trigger] inside(x, builder(l), 15) ==> !data_changed(
                m,
                l,
                hook,
                h,
            ).contains(x),
        forall|x: u64|
            trampoline(l, hook) != 0 && #[trigger] inside(x, trampoline(l, hook), 29)
                ==> !data_changed(m, l, hook, h).contains(x),
        l.sim_base != 0 && trampoline(l, hook) != 0 ==> apart(
            builder(l),
            15,
            trampoline(l, hook),
            29,
        ),
{
    let f = fields(m, l, hook, h);
    assert forall|x: u64| l.sim_base != 0 && #[trigger] inside(
        x,
        builder(l),
        15,
    ) implies !data_changed(m, l, hook, h).contains(x) by {
        lemma_data_outside(m, l, hook, h, 8, x);
    }
    assert forall|x: u64|
        trampoline(l, hook) != 0 && #[trigger] inside(
            x,
            trampoline(l, hook),
            29,
        ) implies !data_changed(m, l, hook, h).contains(x) by {
        lemma_data_outside(m, l, hook, h, 9, x);
    }
    assert(apart(f[8].0, f[8].1, f[9].0, f[9].1));
}

proof fn lemma_data_outside(m: Bytes, l: Links, hook: SeedHook, h: u32, k: int, x: u64)
    requires
        separate(fields(m, l, hook, h)),
        bound(m, l, 0, hook, h).b.old_team is Some ==> team_slot(m, l.tls) != 0,
        bound(m, l, 0, hook, h).clamp != 0 ==> l.sim_base != 0,
        8 <= k <= 10,
        inside(x, fields(m, l, hook, h)[k].0, fields(m, l, hook, h)[k].1),
    ensures
        !data_changed(m, l, hook, h).contains(x),
{
    let f = fields(m, l, hook, h);
    lemma_sep(f, k, 0, x);
    lemma_sep(f, k, 1, x);
    lemma_sep(f, k, 2, x);
    lemma_sep(f, k, 3, x);
    lemma_sep(f, k, 4, x);
    lemma_sep(f, k, 5, x);
    lemma_sep(f, k, 6, x);
    lemma_sep(f, k, 7, x);
}

/// Binding does not touch the place of the streaming anchor.
proof fn lemma_touched_outside(m: Bytes, l: Links, hook: SeedHook, h: u32, x: u64)
    requires
        separate(fields(m, l, hook, h)),
        bound(m, l, 0, hook, h).b.old_team is Some ==> team_slot(m, l.tls) != 0,
        bound(m, l, 0, hook, h).clamp != 0 ==> l.sim_base != 0,
        bound(m, l, 0, hook, h).b.install is Done ==> l.sim_base != 0,
        anchor_place(m, l.tls).contains(x),
    ensures
        !touched(m, l, hook, h).contains(x),
{
    let f = fields(m, l, hook, h);
    assert(inside(x, f[10].0, f[10].1));
    lemma_data_outside(m, l, hook, h, 10, x);
    lemma_sep(f, 10, 8, x);
    lemma_sep(f, 10, 9, x);
}

proof fn lemma_bytes_readable(m: Bytes, n: Bytes, w: Set<u64>, a: u64, k: nat)
    requires
        same_but(m, n, w),
    ensures
        bytes_at(n, a, k) is Some == bytes_at(m, a, k) is Some,
        bytes_at(n, a, k) is Some ==> (bytes_at(n, a, k)->0).len() == k,
{
}

// ---------------- release ----------------

/// `p` is `m` but for the trampoline and the anchor, and `r` is `p` but for changed fields. The fields are where
/// they were.
proof fn lemma_resolved(
    m: Bytes,
    p: Bytes,
    r: Bytes,
    l: Links,
    hook: SeedHook,
    h: u32,
    d: Set<u64>,
)
    requires
        rooted(m, l, hook, h),
        same_but(m, p, left_behind(m, l, hook, h)),
        same_but(p, r, d),
        d.subset_of(changed(m, l, hook, h)),
    ensures
        body_of(r, l.tls, h) == body_of(m, l.tls, h),
        live(r, l.tls, h) == live(m, l.tls, h),
        local_player(r, l.tls) == local_player(m, l.tls),
        unit_slot(r, l.tls) == unit_slot(m, l.tls),
        control_slot(r, l.tls) == control_slot(m, l.tls),
        team_slot(r, l.tls) == team_slot(m, l.tls),
{
    reveal(rooted);
    lemma_chain(m, p, r, left_behind(m, l, hook, h), d);
    lemma_weaken(m, r, left_behind(m, l, hook, h).union(d), worn(m, l, hook, h));
}

/// With the reference to the AI back in place, so is its state.
proof fn lemma_resolved_state(
    m: Bytes,
    p: Bytes,
    r: Bytes,
    l: Links,
    hook: SeedHook,
    h: u32,
    d: Set<u64>,
)
    requires
        separate(fields(m, l, hook, h)),
        rooted(m, l, hook, h),
        same_but(m, p, left_behind(m, l, hook, h)),
        same_but(p, r, d),
        d.subset_of(changed(m, l, hook, h)),
        forall|x: u64| ai_field(m, l.tls, h).contains(x) ==> !d.contains(x),
    ensures
        state_slot(r, l.tls, h) == state_slot(m, l.tls, h),
{
    reveal(rooted);
    let f = fields(m, l, hook, h);
    let w = left_behind(m, l, hook, h).union(d);
    lemma_chain(m, p, r, left_behind(m, l, hook, h), d);
    assert(w.subset_of(worn(m, l, hook, h).difference(ai_field(m, l.tls, h)))) by {
        assert forall|x: u64| w.contains(x) implies !#[trigger] ai_field(m, l.tls, h).contains(
            x,
        ) by {
            if spare(l, hook).contains(x) {
                lemma_sep(f, 9, 1, x);
            }
            if anchor_place(m, l.tls).contains(x) {
                lemma_sep(f, 10, 1, x);
            }
            if owner_field(m, l.tls, h).contains(x) {
                lemma_sep(f, 2, 1, x);
            }
        }
    }
    lemma_weaken(m, r, w, worn(m, l, hook, h).difference(ai_field(m, l.tls, h)));
}

/// The fields of `p` hold what those of `m` hold: the two bindings, the player's team, the state
/// of the unit's AI, the reference to it, the two limits of the turn rate, and
/// the seed builder's code.
pub open spec fn given_back(m: Bytes, p: Bytes, l: Links, h: u32) -> bool {
    let body = body_of(m, l.tls, h);
    let st = state_slot(m, l.tls, h);
    let team = team_slot(m, l.tls);
    let rate = off(l.sim_base, TURN_CLAMP_POS_RVA);
    let least = off(l.sim_base, TURN_CLAMP_NEG_RVA);
    &&& slot_value(p, st) == slot_value(m, st)
    &&& body != 0 ==> u32_at(p, off(body, BODY_AI_REF)) == u32_at(m, off(body, BODY_AI_REF))
    &&& team != 0 ==> u8_at(p, team) == u8_at(m, team)
    &&& l.sim_base != 0 ==> u32_at(p, rate) == u32_at(m, rate)
    &&& l.sim_base != 0 ==> u32_at(p, least) == u32_at(m, least)
    &&& slot_value(p, unit_slot(m, l.tls)) == slot_value(m, unit_slot(m, l.tls))
    &&& slot_value(p, control_slot(m, l.tls)) == slot_value(m, control_slot(m, l.tls))
    &&& l.sim_base != 0 ==> bytes_at(p, builder(l), 15) == bytes_at(m, builder(l), 15)
}

proof fn lemma_same_data(m: Bytes, p: Bytes, l: Links, hook: SeedHook, h: u32)
    requires
        separate(fields(m, l, hook, h)),
        same_but(m, p, left_behind(m, l, hook, h)),
    ensures
        given_back(m, p, l, h),
{
    let f = fields(m, l, hook, h);
    let w = left_behind(m, l, hook, h);
    assert forall|k: int, x: u64|
        0 <= k < 9 && k != 2 && #[trigger] inside(x, f[k].0, f[k].1) implies !w.contains(x) by {
        lemma_sep(f, k, 9, x);
        lemma_sep(f, k, 10, x);
        lemma_sep(f, k, 2, x);
    }
    lemma_field32(m, p, w, f, 0);
    lemma_field32(m, p, w, f, 1);
    lemma_field32(m, p, w, f, 4);
    lemma_field32(m, p, w, f, 5);
    lemma_field32(m, p, w, f, 6);
    lemma_field32(m, p, w, f, 7);
    if f[3].1 == 1 {
        assert(inside(f[3].0, f[3].0, f[3].1));
    }
    if f[8].1 == 15 {
        assert forall|x: u64| #[trigger] inside(x, f[8].0, 15) implies !w.contains(x) by {
            assert(inside(x, f[8].0, f[8].1));
        }
        lemma_read_bytes(m, p, w, f[8].0, 15);
    }
}

proof fn lemma_field32(m: Bytes, p: Bytes, w: Set<u64>, f: Seq<(u64, int)>, k: int)
    requires
        same_but(m, p, w),
        0 <= k < 9,
        k != 2,
        f.len() == 11,
        forall|k: int, x: u64|
            0 <= k < 9 && k != 2 && #[trigger] inside(x, f[k].0, f[k].1) ==> !w.contains(x),
    ensures
        f[k].1 == 4 ==> u32_at(p, f[k].0) == u32_at(m, f[k].0),
{
    if f[k].1 == 4 {
        assert forall|x: u64| #[trigger] inside(x, f[k].0, 4) implies !w.contains(x) by {
            assert(inside(x, f[k].0, f[k].1));
        }
        lemma_read32(m, p, w, f[k].0);
    }
}

/// The bindings and the unit are put back.
proof fn lemma_release_unit(
    s: Possess,
    m: Bytes,
    p: Bytes,
    n: Bytes,
    l: Links,
    hook: SeedHook,
    h: u32,
)
    requires
        separate(fields(m, l, hook, h)),
        rooted(m, l, hook, h),
        restorable(s, m, l, hook, h),
        live(m, l.tls, h),
        same_but(m, p, left_behind(m, l, hook, h)),
        unowned(p, l.tls, h),
        same_but(p, n, changed(m, l, hook, h)),
    ensures
        ({
            let o = bound(m, l, 0, hook, h);
            let taken = controlling_state(s, h, l.pawn, o.b);
            let r = super::unit_back(taken, super::bindings_back(taken, n, l.tls), l.tls);
            same_but(p, r, after_unit(m, l, hook, h))
        }),
{
    let o = bound(m, l, 0, hook, h);
    let taken = controlling_state(s, h, l.pawn, o.b);
    let tls = l.tls;
    let body = body_of(m, tls, h);
    let us = unit_slot(m, tls);
    let cs = control_slot(m, tls);
    let st = state_slot(m, tls, h);
    let ai = off(body, BODY_AI_REF);
    let ow = off(body, BODY_OWNER);
    lemma_binding(m, l, hook, h);
    lemma_same_data(m, p, l, hook, h);
    let d0 = changed(m, l, hook, h);
    lemma_resolved(m, p, n, l, hook, h, d0);
    assert(same_but(p, p, Set::empty()));
    lemma_resolved(m, p, p, l, hook, h, Set::empty());
    // the bindings
    let r1 = if taken.saved_player_handle != NO_HANDLE {
        slot_set(n, us, taken.saved_player_handle)
    } else {
        n
    };
    let d1 = d0.difference(slot_at(m, us));
    assert(same_but(p, r1, d1)) by {
        lemma_readable(m, p, left_behind(m, l, hook, h), us);
        if taken.saved_player_handle != NO_HANDLE {
            lemma_back_slot(p, n, d0, us, taken.saved_player_handle);
        } else {
            assert(slot_value(m, us) is None);
            assert(d1 =~= d0);
        }
    }
    lemma_resolved(m, p, r1, l, hook, h, d1);
    let r2 = if taken.saved_control_handle != NO_HANDLE {
        slot_set(r1, cs, taken.saved_control_handle)
    } else {
        r1
    };
    let d2 = d1.difference(slot_at(m, cs));
    assert(same_but(p, r2, d2)) by {
        lemma_readable(m, p, left_behind(m, l, hook, h), cs);
        if taken.saved_control_handle != NO_HANDLE {
            lemma_back_slot(p, r1, d1, cs, taken.saved_control_handle);
        } else {
            assert(slot_value(m, cs) is None);
            assert(d2 =~= d1);
        }
    }
    assert(r2 == super::bindings_back(taken, n, tls));
    lemma_resolved(m, p, r2, l, hook, h, d2);
    // the owner
    let r3 = owner_set(r2, tls, h, NO_OWNER);
    let d3 = d2.difference(owner_field(m, tls, h));
    assert(same_but(p, r3, d3)) by {
        if body != 0 {
            lemma_readable(m, p, left_behind(m, l, hook, h), ow);
            assert(body_of(p, tls, h) == body);
            assert(u16_at(p, ow) is Some ==> u16_at(p, ow) == Some(pattern16(NO_OWNER)));
            lemma_back16(p, r2, d2, ow, pattern16(NO_OWNER));
        } else {
            assert(d3 =~= d2);
        }
    }
    lemma_resolved(m, p, r3, l, hook, h, d3);
    // the reference to the AI
    let r4 = ai_ref_set(r3, tls, h, taken.saved_ai_datum);
    let d4 = d3.difference(ai_field(m, tls, h));
    assert(same_but(p, r4, d4)) by {
        if body != 0 {
            lemma_readable(m, p, left_behind(m, l, hook, h), ai);
            lemma_back32(p, r3, d3, ai, taken.saved_ai_datum);
        } else {
            assert(d4 =~= d3);
        }
    }
    lemma_resolved_state(m, p, r4, l, hook, h, d4);
    // the state of the AI
    let r5 = state_set(r4, tls, h, taken.braindead_saved);
    let d5 = d4.difference(slot_at(m, st));
    assert(same_but(p, r5, d5)) by {
        lemma_readable(m, p, left_behind(m, l, hook, h), st);
        if st != 0 {
            if let Some(v) = u32_at(m, st) {
                assert(pattern32(signed32(v)) == v);
            }
            lemma_back_slot(p, r4, d4, st, pattern32(taken.braindead_saved));
        } else {
            assert(d5 =~= d4);
        }
    }
    assert(after_unit(m, l, hook, h) == d5);
}

/// What is still changed once the bindings and the unit are put back.
pub open spec fn after_unit(m: Bytes, l: Links, hook: SeedHook, h: u32) -> Set<u64> {
    changed(m, l, hook, h).difference(slot_at(m, unit_slot(m, l.tls))).difference(
        slot_at(m, control_slot(m, l.tls)),
    ).difference(owner_field(m, l.tls, h)).difference(ai_field(m, l.tls, h)).difference(
        slot_at(m, state_slot(m, l.tls, h)),
    )
}

/// Everything is put back.
proof fn lemma_release(
    s: Possess,
    m: Bytes,
    p: Bytes,
    n: Bytes,
    l: Links,
    hook: SeedHook,
    h: u32,
)
    requires
        separate(fields(m, l, hook, h)),
        rooted(m, l, hook, h),
        restorable(s, m, l, hook, h),
        live(m, l.tls, h),
        same_but(m, p, left_behind(m, l, hook, h)),
        unowned(p, l.tls, h),
        same_but(p, n, changed(m, l, hook, h)),
        code_kept(m, p, l, hook, bound(m, l, 0, hook, h)),
    ensures
        ({
            let o = bound(m, l, 0, hook, h);
            let taken = controlling_state(s, h, l.pawn, o.b);
            released(taken, n, l.tls, l.sim_base, o.clamp, hook_bound(hook, o)) == p
        }),
{
    let o = bound(m, l, 0, hook, h);
    let taken = controlling_state(s, h, l.pawn, o.b);
    let tls = l.tls;
    let team = team_slot(m, tls);
    let rate = off(l.sim_base, TURN_CLAMP_POS_RVA);
    let least = off(l.sim_base, TURN_CLAMP_NEG_RVA);
    let target = builder(l);
    lemma_binding(m, l, hook, h);
    lemma_same_data(m, p, l, hook, h);
    lemma_release_unit(s, m, p, n, l, hook, h);
    let r5 = super::unit_back(taken, super::bindings_back(taken, n, tls), tls);
    let d5 = after_unit(m, l, hook, h);
    lemma_resolved(m, p, r5, l, hook, h, d5);
    // the player's team
    let r6 = super::team_back(taken, r5, tls);
    let d6 = d5.difference(
        if o.b.old_team is Some {
            span(team, 1)
        } else {
            Set::empty()
        },
    );
    assert(same_but(p, r6, d6)) by {
        if let Some(t) = o.b.old_team {
            if let Some(v) = u8_at(m, team) {
                assert(pattern8(signed8(v)) == v);
            }
            lemma_back8(p, r5, d5, team, pattern8(t));
        } else {
            assert(d6 =~= d5);
        }
    }
    // the turn rate
    let r7 = if o.clamp == 0 || l.sim_base == 0 {
        r6
    } else {
        clamp_set(r6, l.sim_base, o.clamp)
    };
    let d7 = d6.difference(word_if(m, o.clamp != 0, rate)).difference(
        word_if(m, o.clamp != 0, least),
    );
    assert(same_but(p, r7, d7)) by {
        if o.clamp != 0 {
            lemma_readable(m, p, left_behind(m, l, hook, h), rate);
            lemma_readable(m, p, left_behind(m, l, hook, h), least);
            lemma_back32(p, r6, d6, rate, o.clamp);
            lemma_back32(
                p,
                store32(r6, rate, o.clamp),
                d6.difference(word_at(m, rate)),
                least,
                negated32(o.clamp),
            );
        } else {
            assert(d7 =~= d6);
        }
    }
    // the code
    let hk = hook_bound(hook, o);
    let r8 = released(taken, n, tls, l.sim_base, o.clamp, hk);
    if o.b.install is Done && bytes_at(m, target, 15) is Some {
        let room = trampoline(l, hook);
        lemma_data_clear(m, l, hook, h);
        assert forall|x: u64| #[trigger] inside(x, room, 15) implies !d7.contains(x) by {
            assert(inside(x, room, 29));
            lemma_apart(room, 29, target, 15);
        }
        lemma_read_bytes(p, r7, d7, room, 15);
        lemma_bytes_readable(p, r7, d7, target, 15);
        assert(r8 == put_bytes(r7, target, bytes_at(m, target, 15)->0));
        lemma_back_bytes(p, r7, d7, target, bytes_at(p, target, 15)->0);
        let d8 = d7.difference(span(target, 15));
        assert forall|x: u64| !d8.contains(x) by {
        }
        assert(r8 =~= p) by {
            lemma_all_back(p, r8, d8);
        }
    } else {
        assert(r8 == r7) by {
            if o.b.install is Done {
                lemma_bytes_readable(p, r7, d7, target, 15);
                lemma_bytes_readable(m, p, left_behind(m, l, hook, h), target, 15);
            }
        }
        assert forall|x: u64| !d7.contains(x) by {
        }
        lemma_all_back(p, r8, d7);
    }
}

proof fn lemma_all_back(p: Bytes, r: Bytes, d: Set<u64>)
    requires
        same_but(p, r, d),
        forall|x: u64| !d.contains(x),
    ensures
        r == p,
{
    assert forall|x: u64| p.dom().contains(x) implies r[x] == p[x] by {
        assert(u8_at(r, x) == u8_at(p, x));
    }
    assert(r =~= p);
}

// ---------------- the laws ----------------

/// Taking control of a unit changes nothing but its fields: the AI's state and reference, the
/// owner, the player's team, the turn rate, the two bindings, and the code of the detour.
pub proof fn law_control_changes_only_fields(s: Possess, m: Bytes, l: Links, hook: SeedHook, h: u32)
    requires
        separate(fields(m, l, hook, h)),
        rooted(m, l, hook, h),
        restorable(s, m, l, hook, h),
    ensures
        same_but(m, bound(m, l, 0, hook, h).m, touched(m, l, hook, h)),
{
    lemma_binding(m, l, hook, h);
}

/// A tick while the unit is controlled changes nothing but the same fields.
proof fn lemma_tick_bindings(s: Possess, m: Bytes, n: Bytes, l: Links, hook: SeedHook, h: u32)
    requires
        separate(fields(m, l, hook, h)),
        rooted(m, l, hook, h),
        restorable(s, m, l, hook, h),
        same_but(m, n, worn(m, l, hook, h)),
    ensures
        same_but(
            m,
            held_bindings(
                controlling_state(s, h, l.pawn, bound(m, l, 0, hook, h).b),
                n,
                l.tls,
            ),
            worn(m, l, hook, h),
        ),
{
    reveal(rooted);
    let o = bound(m, l, 0, hook, h);
    let taken = controlling_state(s, h, l.pawn, o.b);
    let w = worn(m, l, hook, h);
    let tls = l.tls;
    let body = body_of(m, tls, h);
    let us = unit_slot(m, tls);
    let cs = control_slot(m, tls);
    lemma_binding(m, l, hook, h);
    let m1 = slot_set(n, us, h);
    lemma_write_slot(m, n, w, us, h);
    lemma_weaken(m, m1, w.union(slot_at(m, us)), w);
    let m2 = slot_set(m1, cs, h);
    lemma_write_slot(m, m1, w, cs, h);
    lemma_weaken(m, m2, w.union(slot_at(m, cs)), w);
    let m3 = match local_player(m2, tls) {
        None => m2,
        Some((pcg, ph)) => owner_set(
            m2,
            tls,
            h,
            crate::memory::signed16((ph % 0x1_0000) as u16),
        ),
    };
    assert(same_but(m, m3, w)) by {
        if let Some((pcg, ph)) = local_player(m2, tls) {
            if body != 0 {
                let a = off(body, BODY_OWNER);
                lemma_write16(
                    m,
                    m2,
                    w,
                    a,
                    pattern16(crate::memory::signed16((ph % 0x1_0000) as u16)),
                );
                lemma_weaken(m, m3, w.union(half_at(m, a)), w);
            }
        }
    }
    let m4 = ai_ref_set(m3, tls, h, NO_HANDLE);
    assert(same_but(m, m4, w)) by {
        if body != 0 {
            let a = off(body, BODY_AI_REF);
            lemma_write32(m, m3, w, a, NO_HANDLE);
            lemma_weaken(m, m4, w.union(word_at(m, a)), w);
        }
    }
    if taken.saved_player_team is Some {
        let team = team_slot(m, tls);
        let m5 = super::team_byte_set(m4, tls, super::sect(taken));
        lemma_write8(m, m4, w, team, pattern8(super::sect(taken)));
        lemma_weaken(m, m5, w.union(span(team, 1)), w);
    }
}

/// The fields that a tick writes: the reference to the AI, the owner, the player's team, the two
/// bindings, and the place of the streaming anchor.
pub open spec fn tick_fields(f: Seq<(u64, int)>) -> Set<u64> {
    field(f, 1).union(field(f, 2)).union(field(f, 3)).union(field(f, 6)).union(field(f, 7)).union(
        field(f, 10),
    )
}

/// A tick writes its fields alone.
proof fn lemma_tick_frame(s: Possess, m: Bytes, n: Bytes, l: Links, hook: SeedHook, h: u32)
    requires
        separate(fields(m, l, hook, h)),
        rooted(m, l, hook, h),
        restorable(s, m, l, hook, h),
        same_but(m, n, worn(m, l, hook, h)),
    ensures
        same_but(
            n,
            held_bindings(
                controlling_state(s, h, l.pawn, bound(m, l, 0, hook, h).b),
                n,
                l.tls,
            ),
            tick_fields(fields(m, l, hook, h)),
        ),
{
    reveal(rooted);
    let o = bound(m, l, 0, hook, h);
    let taken = controlling_state(s, h, l.pawn, o.b);
    let f = fields(m, l, hook, h);
    let w = worn(m, l, hook, h);
    let v = tick_fields(f);
    let tls = l.tls;
    let body = body_of(m, tls, h);
    let us = unit_slot(m, tls);
    let cs = control_slot(m, tls);
    lemma_binding(m, l, hook, h);
    let m1 = slot_set(n, us, h);
    lemma_write_slot(m, n, w, us, h);
    lemma_weaken(m, m1, w.union(slot_at(m, us)), w);
    assert(same_but(n, n, v));
    lemma_write_slot(n, n, v, us, h);
    lemma_weaken(n, m1, v.union(slot_at(n, us)), v);
    let m2 = slot_set(m1, cs, h);
    lemma_write_slot(m, m1, w, cs, h);
    lemma_weaken(m, m2, w.union(slot_at(m, cs)), w);
    lemma_write_slot(n, m1, v, cs, h);
    lemma_weaken(n, m2, v.union(slot_at(n, cs)), v);
    let m3 = match local_player(m2, tls) {
        None => m2,
        Some((pcg, ph)) => owner_set(
            m2,
            tls,
            h,
            crate::memory::signed16((ph % 0x1_0000) as u16),
        ),
    };
    if let Some((pcg, ph)) = local_player(m2, tls) {
        if body != 0 {
            let a = off(body, BODY_OWNER);
            let x = pattern16(crate::memory::signed16((ph % 0x1_0000) as u16));
            lemma_write16(m, m2, w, a, x);
            lemma_weaken(m, m3, w.union(half_at(m, a)), w);
            lemma_write16(n, m2, v, a, x);
            lemma_weaken(n, m3, v.union(half_at(n, a)), v);
        }
    }
    assert(same_but(m, m3, w) && same_but(n, m3, v));
    let m4 = ai_ref_set(m3, tls, h, NO_HANDLE);
    if body != 0 {
        let a = off(body, BODY_AI_REF);
        lemma_write32(m, m3, w, a, NO_HANDLE);
        lemma_weaken(m, m4, w.union(word_at(m, a)), w);
        lemma_write32(n, m3, v, a, NO_HANDLE);
        lemma_weaken(n, m4, v.union(word_at(n, a)), v);
    }
    assert(same_but(m, m4, w) && same_but(n, m4, v));
    if taken.saved_player_team is Some {
        let team = team_slot(m, tls);
        let m5 = super::team_byte_set(m4, tls, super::sect(taken));
        lemma_write8(n, m4, v, team, pattern8(super::sect(taken)));
        lemma_weaken(n, m5, v.union(span(team, 1)), v);
    }
}

/// The state `t` still keeps what was kept when control was taken, as it does after any number of
/// ticks.
pub open spec fn still(t: Possess, taken: Possess) -> bool {
    &&& t.cur_handle == taken.cur_handle
    &&& t.braindead_saved == taken.braindead_saved
    &&& t.saved_player_handle == taken.saved_player_handle
    &&& t.saved_control_handle == taken.saved_control_handle
    &&& t.saved_ai_datum == taken.saved_ai_datum
    &&& t.saved_player_team == taken.saved_player_team
    &&& t.possessed_team == taken.possessed_team
}

/// Memory after a tick that holds the unit, with the streaming anchor moved.
pub open spec fn tick_memory(t: Possess, n: Bytes, tls: u64, target: [u32; 3], moved: u32) -> Bytes {
    held_anchor(t, held_bindings(t, n, tls), tls, target, moved).0
}

/// The streaming anchor is moved at its place.
pub(crate) proof fn lemma_anchor(
    m: Bytes,
    n: Bytes,
    w: Set<u64>,
    a: u64,
    target: [u32; 3],
)
    requires
        same_but(m, n, w),
    ensures
        same_but(m, crate::memory::store_triple(n, a, target).0, w.union(span(a, 12))),
{
    let v = w.union(span(a, 12));
    lemma_weaken(m, n, w, v);
    if u32_at(n, a) is Some {
        let n1 = store32(n, a, target[0]);
        lemma_write32(m, n, v, a, target[0]);
        lemma_weaken(m, n1, v.union(word_at(m, a)), v);
        if u32_at(n1, off(a, 4)) is Some {
            let n2 = store32(n1, off(a, 4), target[1]);
            lemma_write32(m, n1, v, off(a, 4), target[1]);
            lemma_weaken(m, n2, v.union(word_at(m, off(a, 4))), v);
            if u32_at(n2, off(a, 8)) is Some {
                let n3 = store32(n2, off(a, 8), target[2]);
                lemma_write32(m, n2, v, off(a, 8), target[2]);
                lemma_weaken(m, n3, v.union(word_at(m, off(a, 8))), v);
            }
        }
    }
}

/// A tick while the unit is controlled changes nothing but the same fields, and the place of the
/// streaming anchor.
pub proof fn law_tick_changes_only_fields(
    s: Possess,
    t: Possess,
    m: Bytes,
    n: Bytes,
    l: Links,
    hook: SeedHook,
    h: u32,
    target: [u32; 3],
    moved: u32,
)
    requires
        separate(fields(m, l, hook, h)),
        rooted(m, l, hook, h),
        restorable(s, m, l, hook, h),
        still(t, controlling_state(s, h, l.pawn, bound(m, l, 0, hook, h).b)),
        same_but(m, n, worn(m, l, hook, h)),
    ensures
        same_but(m, tick_memory(t, n, l.tls, target, moved), worn(m, l, hook, h)),
        same_but(
            n,
            tick_memory(t, n, l.tls, target, moved),
            tick_fields(fields(m, l, hook, h)),
        ),
{
    reveal(rooted);
    let w = worn(m, l, hook, h);
    let taken = controlling_state(s, h, l.pawn, bound(m, l, 0, hook, h).b);
    let v = tick_fields(fields(m, l, hook, h));
    lemma_tick_bindings(s, m, n, l, hook, h);
    lemma_tick_frame(s, m, n, l, hook, h);
    lemma_binding(m, l, hook, h);
    let n1 = held_bindings(t, n, l.tls);
    assert(n1 == held_bindings(taken, n, l.tls));
    let a = t.saved_player_handle;
    assert(a == own_handle(m, l.tls));
    let b = body_of(n1, l.tls, a);
    assert(b == anchor_body(m, l.tls));
    if a != NO_HANDLE && crate::simtime::unit::anchor_sources(n1, l.tls, a, t.cur_handle) is Some {
        lemma_anchor(m, n1, w, off(b, BODY_POS), target);
        lemma_weaken(
            m,
            tick_memory(t, n, l.tls, target, moved),
            w.union(span(off(b, BODY_POS), 12)),
            w,
        );
        lemma_anchor(n, n1, v, off(b, BODY_POS), target);
        lemma_weaken(
            n,
            tick_memory(t, n, l.tls, target, moved),
            v.union(span(off(b, BODY_POS), 12)),
            v,
        );
    }
}

/// A tick leaves the trampoline alone.
proof fn lemma_tick_code(
    s: Possess,
    t: Possess,
    m: Bytes,
    n: Bytes,
    l: Links,
    hook: SeedHook,
    h: u32,
    target: [u32; 3],
    moved: u32,
)
    requires
        separate(fields(m, l, hook, h)),
        rooted(m, l, hook, h),
        restorable(s, m, l, hook, h),
        still(t, controlling_state(s, h, l.pawn, bound(m, l, 0, hook, h).b)),
        same_but(m, n, worn(m, l, hook, h)),
        code_kept(m, n, l, hook, bound(m, l, 0, hook, h)),
    ensures
        code_kept(m, tick_memory(t, n, l.tls, target, moved), l, hook, bound(m, l, 0, hook, h)),
{
    let o = bound(m, l, 0, hook, h);
    let f = fields(m, l, hook, h);
    let room = trampoline(l, hook);
    law_tick_changes_only_fields(s, t, m, n, l, hook, h, target, moved);
    if o.b.install is Done && bytes_at(m, builder(l), 15) is Some {
        assert forall|x: u64| #[trigger] inside(x, room, 15) implies !tick_fields(f).contains(
            x,
        ) by {
            assert(inside(x, f[9].0, f[9].1));
            lemma_sep(f, 9, 1, x);
            lemma_sep(f, 9, 2, x);
            lemma_sep(f, 9, 3, x);
            lemma_sep(f, 9, 6, x);
            lemma_sep(f, 9, 7, x);
            lemma_sep(f, 9, 10, x);
        }
        lemma_read_bytes(n, tick_memory(t, n, l.tls, target, moved), tick_fields(f), room, 15);
    }
}

/// Memory after a row of ticks that hold the unit, each with the place to which it moves the
/// streaming anchor and the distance.
pub open spec fn ticks_memory(
    t: Possess,
    n: Bytes,
    tls: u64,
    ticks: Seq<([u32; 3], u32)>,
) -> Bytes
    decreases ticks.len(),
{
    if ticks.len() == 0 {
        n
    } else {
        let before = ticks_memory(t, n, tls, ticks.drop_last());
        tick_memory(t, before, tls, ticks.last().0, ticks.last().1)
    }
}

/// However many ticks there are after control was taken, they change nothing but the fields and
/// the place of the streaming anchor, and the unit is as much alive as it was.
pub proof fn law_ticks_change_only_fields(
    s: Possess,
    t: Possess,
    m: Bytes,
    l: Links,
    hook: SeedHook,
    h: u32,
    ticks: Seq<([u32; 3], u32)>,
)
    requires
        separate(fields(m, l, hook, h)),
        rooted(m, l, hook, h),
        restorable(s, m, l, hook, h),
        still(t, controlling_state(s, h, l.pawn, bound(m, l, 0, hook, h).b)),
    ensures
        ({
            let n = ticks_memory(t, bound(m, l, 0, hook, h).m, l.tls, ticks);
            &&& same_but(m, n, worn(m, l, hook, h))
            &&& code_kept(m, n, l, hook, bound(m, l, 0, hook, h))
            &&& live(n, l.tls, h) == live(m, l.tls, h)
        }),
    decreases ticks.len(),
{
    let o = bound(m, l, 0, hook, h);
    let n = ticks_memory(t, o.m, l.tls, ticks);
    if ticks.len() == 0 {
        lemma_binding(m, l, hook, h);
        lemma_weaken(m, o.m, touched(m, l, hook, h), worn(m, l, hook, h));
    } else {
        let before = ticks_memory(t, o.m, l.tls, ticks.drop_last());
        let (target, moved) = ticks.last();
        law_ticks_change_only_fields(s, t, m, l, hook, h, ticks.drop_last());
        law_tick_changes_only_fields(s, t, m, before, l, hook, h, target, moved);
        lemma_tick_code(s, t, m, before, l, hook, h, target, moved);
    }
    assert(live(n, l.tls, h) == live(m, l.tls, h)) by {
        reveal(rooted);
    }
}

/// `p` with the unit's owner cleared: nothing else differs, and nothing at all where the unit had
/// no owner.
proof fn lemma_owner_cleared(m: Bytes, p: Bytes, l: Links, hook: SeedHook, h: u32)
    requires
        separate(fields(m, l, hook, h)),
        rooted(m, l, hook, h),
        same_but(m, p, left(m, l, hook)),
    ensures
        ({
            let body = body_of(m, l.tls, h);
            let r = if body != 0 {
                store16(p, off(body, BODY_OWNER), pattern16(NO_OWNER))
            } else {
                p
            };
            &&& same_but(m, r, left_behind(m, l, hook, h))
            &&& same_but(p, r, owner_field(m, l.tls, h))
            &&& body_of(r, l.tls, h) == body
            &&& unowned(r, l.tls, h)
            &&& unowned(m, l.tls, h) ==> same_but(m, r, left(m, l, hook))
        }),
{
    let body = body_of(m, l.tls, h);
    let ow = off(body, BODY_OWNER);
    let none = Set::<u64>::empty();
    let r = if body != 0 {
        store16(p, ow, pattern16(NO_OWNER))
    } else {
        p
    };
    lemma_readable(m, p, left(m, l, hook), ow);
    if body != 0 {
        lemma_write16(m, p, left(m, l, hook), ow, pattern16(NO_OWNER));
        assert(same_but(p, p, none));
        lemma_write16(p, p, none, ow, pattern16(NO_OWNER));
        lemma_weaken(p, r, none.union(half_at(p, ow)), owner_field(m, l.tls, h));
        if u16_at(p, ow) is Some {
            lemma_put16_frame(p, ow, pattern16(NO_OWNER));
        }
    } else {
        lemma_weaken(m, r, left(m, l, hook), left_behind(m, l, hook, h));
    }
    lemma_weaken(m, r, left_behind(m, l, hook, h), worn(m, l, hook, h));
    assert(body_of(r, l.tls, h) == body) by {
        reveal(rooted);
    }
    if unowned(m, l.tls, h) && body != 0 && u16_at(m, ow) is Some {
        assert(u16_at(m, ow) == Some(pattern16(NO_OWNER)));
        lemma_half_bytes(m, r, ow);
    }
}

/// A release puts back everything that taking control changed, whatever happened to the changed
/// fields and to the place of the streaming anchor in between: memory is again what it was, but
/// for the trampoline, which stays, and for the anchor's place, which stays as `n` has it. A unit
/// that had an owner has none afterwards. The trampoline is not to be overwritten in between.
pub proof fn law_release_restores(
    s: Possess,
    t: Possess,
    m: Bytes,
    n: Bytes,
    l: Links,
    hook: SeedHook,
    h: u32,
)
    requires
        separate(fields(m, l, hook, h)),
        rooted(m, l, hook, h),
        restorable(s, m, l, hook, h),
        live(m, l.tls, h),
        still(t, controlling_state(s, h, l.pawn, bound(m, l, 0, hook, h).b)),
        same_but(m, n, worn(m, l, hook, h)),
        code_kept(m, n, l, hook, bound(m, l, 0, hook, h)),
    ensures
        ({
            let o = bound(m, l, 0, hook, h);
            let r = released(t, n, l.tls, l.sim_base, o.clamp, hook_bound(hook, o));
            &&& same_but(m, r, left_behind(m, l, hook, h))
            &&& unowned(r, l.tls, h)
            &&& unowned(m, l.tls, h) ==> same_but(m, r, left(m, l, hook))
            &&& forall|x: u64| left(m, l, hook).contains(x) ==> #[trigger] u8_at(r, x) == u8_at(n, x)
        }),
{
    let o = bound(m, l, 0, hook, h);
    let sp = left(m, l, hook);
    let taken = controlling_state(s, h, l.pawn, o.b);
    let body = body_of(m, l.tls, h);
    let ow = off(body, BODY_OWNER);
    let p0 = m.union_prefer_right(n.restrict(sp));
    let p = if body != 0 {
        store16(p0, ow, pattern16(NO_OWNER))
    } else {
        p0
    };
    lemma_binding(m, l, hook, h);
    assert(same_but(m, p0, sp)) by {
        assert(m.dom() =~= p0.dom());
    }
    lemma_owner_cleared(m, p0, l, hook, h);
    assert(same_but(p, n, changed(m, l, hook, h))) by {
        assert(m.dom() =~= p.dom());
        assert forall|x: u64| !changed(m, l, hook, h).contains(x) implies #[trigger] u8_at(n, x)
            == u8_at(p, x) by {
            assert(!owner_field(m, l.tls, h).contains(x));
            assert(u8_at(p, x) == u8_at(p0, x));
            if !sp.contains(x) {
                assert(!worn(m, l, hook, h).contains(x));
                assert(u8_at(n, x) == u8_at(m, x));
            }
        }
    }
    assert(code_kept(m, p, l, hook, o)) by {
        if o.b.install is Done && bytes_at(m, builder(l), 15) is Some {
            let room = trampoline(l, hook);
            let d = changed(m, l, hook, h);
            lemma_data_clear(m, l, hook, h);
            assert forall|x: u64| #[trigger] inside(x, room, 15) implies !d.contains(x) by {
                assert(inside(x, room, 29));
                lemma_apart(room, 29, builder(l), 15);
            }
            lemma_read_bytes(p, n, d, room, 15);
        }
    }
    lemma_release(s, m, p, n, l, hook, h);
    assert(released(t, n, l.tls, l.sim_base, o.clamp, hook_bound(hook, o)) == released(
        taken,
        n,
        l.tls,
        l.sim_base,
        o.clamp,
        hook_bound(hook, o),
    ));
    assert(m.dom() =~= n.dom());
    assert forall|x: u64| sp.contains(x) implies #[trigger] u8_at(p, x) == u8_at(n, x) by {
        let f = fields(m, l, hook, h);
        if owner_field(m, l.tls, h).contains(x) {
            lemma_sep(f, 2, 9, x);
            lemma_sep(f, 2, 10, x);
        }
        assert(u8_at(p, x) == u8_at(p0, x));
    }
}

/// Taking control and releasing it at once leaves memory as it was, but for the trampoline, and
/// for the owner of a unit that had one: it has none afterwards.
pub proof fn law_release_undoes_control(s: Possess, m: Bytes, l: Links, hook: SeedHook, h: u32)
    requires
        separate(fields(m, l, hook, h)),
        rooted(m, l, hook, h),
        restorable(s, m, l, hook, h),
        live(m, l.tls, h),
    ensures
        ({
            let o = bound(m, l, 0, hook, h);
            let taken = controlling_state(s, h, l.pawn, o.b);
            let r = released(taken, o.m, l.tls, l.sim_base, o.clamp, hook_bound(hook, o));
            &&& same_but(m, r, spare(l, hook).union(owner_field(m, l.tls, h)))
            &&& unowned(r, l.tls, h)
            &&& unowned(m, l.tls, h) ==> same_but(m, r, spare(l, hook))
        }),
{
    let o = bound(m, l, 0, hook, h);
    let taken = controlling_state(s, h, l.pawn, o.b);
    let r = released(taken, o.m, l.tls, l.sim_base, o.clamp, hook_bound(hook, o));
    let f = fields(m, l, hook, h);
    lemma_binding(m, l, hook, h);
    lemma_weaken(m, o.m, touched(m, l, hook, h), worn(m, l, hook, h));
    law_release_restores(s, taken, m, o.m, l, hook, h);
    assert forall|x: u64|
        !spare(l, hook).contains(x) && (unowned(m, l.tls, h) || !owner_field(
            m,
            l.tls,
            h,
        ).contains(x)) implies #[trigger] u8_at(r, x) == u8_at(m, x) by {
        if anchor_place(m, l.tls).contains(x) {
            lemma_touched_outside(m, l, hook, h, x);
            assert(u8_at(o.m, x) == u8_at(m, x));
        }
    }
}

/// Taking control of a unit, any number of ticks, and a release: memory is what it was, but for
/// the trampoline and the place of the streaming anchor. Both bindings, the player's team, the
/// turn rate, the unit's AI and its state are what they were, and the unit has no owner, whether
/// it had one before or not. Nothing is kept any more, the detour is removed, and no other
/// release waits.
pub proof fn law_release_undoes_control_and_ticks(
    s: Possess,
    t: Possess,
    m: Bytes,
    l: Links,
    hook: SeedHook,
    h: u32,
    ticks: Seq<([u32; 3], u32)>,
)
    requires
        separate(fields(m, l, hook, h)),
        rooted(m, l, hook, h),
        restorable(s, m, l, hook, h),
        live(m, l.tls, h),
        still(t, controlling_state(s, h, l.pawn, bound(m, l, 0, hook, h).b)),
    ensures
        ({
            let o = bound(m, l, 0, hook, h);
            let n = ticks_memory(t, o.m, l.tls, ticks);
            let r = released(t, n, l.tls, l.sim_base, o.clamp, hook_bound(hook, o));
            &&& same_but(m, r, left_behind(m, l, hook, h))
            &&& unowned(m, l.tls, h) ==> same_but(m, r, left(m, l, hook))
            &&& given_back(m, r, l, h)
            &&& unit_slot(r, l.tls) == unit_slot(m, l.tls)
            &&& control_slot(r, l.tls) == control_slot(m, l.tls)
            &&& body_of(r, l.tls, h) == body_of(m, l.tls, h)
            &&& unowned(r, l.tls, h)
            &&& forall|after: SeedHook| #[trigger]
                seed_removed(hook_bound(hook, o), after) ==> !after.installed
            &&& !released_state(t).releasing
            &&& released_state(t).cur_handle == NO_HANDLE
        }),
{
    law_ticks_change_only_fields(s, t, m, l, hook, h, ticks);
    let o = bound(m, l, 0, hook, h);
    let n = ticks_memory(t, o.m, l.tls, ticks);
    let r = released(t, n, l.tls, l.sim_base, o.clamp, hook_bound(hook, o));
    law_release_restores(s, t, m, n, l, hook, h);
    lemma_same_data(m, r, l, hook, h);
    lemma_weaken(m, r, left_behind(m, l, hook, h), worn(m, l, hook, h));
    reveal(rooted);
}

/// A release of a unit that is gone writes nothing through its handle: only the two bindings, the
/// player's team, the turn rate and the detour's code are put back.
pub proof fn law_lost_unit_is_left(
    s: Possess,
    m: Bytes,
    tls: u64,
    sim_base: u64,
    clamp: u32,
    hook: SeedHook,
)
    requires
        !live(super::bindings_back(s, m, tls), tls, s.cur_handle),
    ensures
        ({
            let m1 = slot_set(m, unit_slot(m, tls), s.saved_player_handle);
            let own = if s.saved_player_handle != NO_HANDLE {
                m1
            } else {
                m
            };
            let m2 = super::bindings_back(s, m, tls);
            same_but(
                m,
                released(s, m, tls, sim_base, clamp, hook),
                slot_at(m, unit_slot(m, tls)).union(slot_at(m, control_slot(own, tls))).union(
                    span(team_slot(m2, tls), 1),
                ).union(span(off(sim_base, TURN_CLAMP_POS_RVA), 4)).union(
                    span(off(sim_base, TURN_CLAMP_NEG_RVA), 4),
                ).union(span(hook.target, 15)),
            )
        }),
{
    let own = if s.saved_player_handle != NO_HANDLE {
        slot_set(m, unit_slot(m, tls), s.saved_player_handle)
    } else {
        m
    };
    let m2 = super::bindings_back(s, m, tls);
    let us = unit_slot(m, tls);
    let cs = control_slot(own, tls);
    let team = team_slot(m2, tls);
    let rate = off(sim_base, TURN_CLAMP_POS_RVA);
    let least = off(sim_base, TURN_CLAMP_NEG_RVA);
    let w = slot_at(m, us).union(slot_at(m, cs)).union(span(team, 1)).union(span(rate, 4)).union(
        span(least, 4),
    ).union(span(hook.target, 15));
    assert(same_but(m, m, w));
    lemma_write_slot(m, m, w, us, s.saved_player_handle);
    lemma_weaken(m, slot_set(m, us, s.saved_player_handle), w.union(slot_at(m, us)), w);
    lemma_write_slot(m, own, w, cs, s.saved_control_handle);
    lemma_weaken(m, slot_set(own, cs, s.saved_control_handle), w.union(slot_at(m, cs)), w);
    assert(same_but(m, m2, w));
    let m3 = super::team_back(s, m2, tls);
    if let Some(t) = s.saved_player_team {
        if team != 0 {
            lemma_write8(m, m2, w, team, pattern8(t));
            lemma_weaken(m, m3, w.union(span(team, 1)), w);
        }
    }
    assert(same_but(m, m3, w));
    let m4 = if clamp == 0 || sim_base == 0 {
        m3
    } else {
        clamp_set(m3, sim_base, clamp)
    };
    if clamp != 0 && sim_base != 0 {
        lemma_write32(m, m3, w, rate, clamp);
        lemma_weaken(m, store32(m3, rate, clamp), w.union(word_at(m, rate)), w);
        lemma_write32(m, store32(m3, rate, clamp), w, least, negated32(clamp));
        lemma_weaken(m, m4, w.union(word_at(m, least)), w);
    }
    assert(same_but(m, m4, w));
    let m5 = released(s, m, tls, sim_base, clamp, hook);
    if m5 != m4 {
        let stolen = bytes_at(m4, hook.trampoline, 15)->0;
        lemma_bytes_readable(m, m4, w, hook.target, 15);
        lemma_write_bytes(m, m4, w, hook.target, stolen);
        lemma_weaken(m, m5, w.union(span(hook.target, 15)), w);
    }
}

// ---------------- control takes hold ----------------

/// The addresses of field `k`.
pub open spec fn field(f: Seq<(u64, int)>, k: int) -> Set<u64> {
    span(f[k].0, f[k].1)
}

/// Memory after each step of binding: the AI stopped, the AI detached, the team joined, the turn
/// rate widened, the first binding redirected, the second, the owner stamped, and the detour
/// installed.
pub open spec fn stages(m: Bytes, l: Links, hook: SeedHook, h: u32) -> Seq<Bytes> {
    let n1 = state_set(m, l.tls, h, 0);
    let n2 = ai_ref_set(n1, l.tls, h, NO_HANDLE);
    let n3 = super::team_joined(n2, l.tls, h).0;
    let n4 = super::clamp_widened(n3, l.sim_base, 0).0;
    let n5 = slot_set(n4, unit_slot(n4, l.tls), h);
    let n6 = slot_set(n5, control_slot(n5, l.tls), h);
    let n7 = super::redirected(n4, l.tls, h).0;
    seq![n1, n2, n3, n4, n5, n6, n7, bound(m, l, 0, hook, h).m]
}

/// Every stage is memory but for the fields, so that the fields are found where they were.
#[verifier::rlimit(40)]
pub(crate) proof fn lemma_stages_resolved(m: Bytes, l: Links, hook: SeedHook, h: u32)
    requires
        separate(fields(m, l, hook, h)),
        rooted(m, l, hook, h),
        !hook.installed,
        trampoline_right(m, l, hook),
        l.sim_base != 0 ==> u32_at(m, off(l.sim_base, TURN_CLAMP_POS_RVA)) != Some(0u32),
    ensures
        ({
            let n = stages(m, l, hook, h);
            forall|k: int|
                0 <= k < 8 ==> {
                    &&& body_of(#[trigger] n[k], l.tls, h) == body_of(m, l.tls, h)
                    &&& local_player(n[k], l.tls) == local_player(m, l.tls)
                    &&& unit_slot(n[k], l.tls) == unit_slot(m, l.tls)
                    &&& control_slot(n[k], l.tls) == control_slot(m, l.tls)
                }
        }),
{
    let n = stages(m, l, hook, h);
    let w = touched(m, l, hook, h);
    let tls = l.tls;
    let o = bound(m, l, 0, hook, h);
    let body = body_of(m, tls, h);
    lemma_binding(m, l, hook, h);
    lemma_write_slot(m, m, w, state_slot(m, tls, h), pattern32(0));
    lemma_weaken(m, n[0], w.union(slot_at(m, state_slot(m, tls, h))), w);
    lemma_at(m, l, hook, h, n[0]);
    if body != 0 {
        lemma_write32(m, n[0], w, off(body, BODY_AI_REF), NO_HANDLE);
        lemma_weaken(m, n[1], w.union(ai_field(m, tls, h)), w);
    }
    assert(same_but(m, n[1], w));
    lemma_at(m, l, hook, h, n[1]);
    if o.b.old_team is Some {
        let v = pattern8(
            signed8((crate::simtime::unit::team_of(n[1], tls, h)->0 % 0x100) as u8),
        );
        lemma_write8(m, n[1], w, team_slot(m, tls), v);
        lemma_weaken(m, n[2], w.union(span(team_slot(m, tls), 1)), w);
    } else {
        assert(n[2] == n[1]);
    }
    lemma_at(m, l, hook, h, n[2]);
    if o.clamp != 0 {
        let v = crate::ieee::magnitude32(super::CONTROL_TURN_RATE);
        let a = off(l.sim_base, TURN_CLAMP_POS_RVA);
        let b = off(l.sim_base, TURN_CLAMP_NEG_RVA);
        lemma_write32(m, n[2], w, a, v);
        lemma_weaken(m, store32(n[2], a, v), w.union(word_at(m, a)), w);
        lemma_write32(m, store32(n[2], a, v), w, b, negated32(v));
        lemma_weaken(m, n[3], w.union(word_at(m, b)), w);
    } else {
        lemma_readable(m, n[2], w, off(l.sim_base, TURN_CLAMP_POS_RVA));
        assert(n[3] == n[2]);
    }
    lemma_at(m, l, hook, h, n[3]);
    lemma_write_slot(m, n[3], w, unit_slot(m, tls), h);
    lemma_weaken(m, n[4], w.union(slot_at(m, unit_slot(m, tls))), w);
    lemma_at(m, l, hook, h, n[4]);
    lemma_write_slot(m, n[4], w, control_slot(m, tls), h);
    lemma_weaken(m, n[5], w.union(slot_at(m, control_slot(m, tls))), w);
    lemma_at(m, l, hook, h, n[5]);
    if let Some((pcg, ph)) = local_player(m, tls) {
        if body != 0 {
            lemma_write16(
                m,
                n[5],
                w,
                off(body, BODY_OWNER),
                pattern16(crate::memory::signed16((ph % 0x1_0000) as u16)),
            );
            lemma_weaken(m, n[6], w.union(owner_field(m, tls, h)), w);
        }
    }
    assert(same_but(m, n[6], w));
    lemma_at(m, l, hook, h, n[6]);
    lemma_at(m, l, hook, h, n[7]);
}

/// Installing the detour changes only the code and the trampoline.
proof fn lemma_install_frame(n: Bytes, l: Links, hook: SeedHook, w: Set<u64>)
    requires
        l.sim_base != 0 ==> span(builder(l), 15).subset_of(w),
        trampoline(l, hook) != 0 ==> span(trampoline(l, hook), 29).subset_of(w),
    ensures
        same_but(n, install_outcome(hook, n, l.sim_base, l.fresh, l.relay).1, w),
{
    let o = install_outcome(hook, n, l.sim_base, l.fresh, l.relay);
    let target = builder(l);
    let pb = patch_bytes(l.relay);
    assert(pb.len() == 15);
    assert(same_but(n, n, w));
    if o.0 is Done {
        if hook.trampoline != 0 {
            if bytes_at(n, target, 15) is Some {
                lemma_write_bytes(n, n, w, target, pb);
                lemma_weaken(n, o.1, w.union(span(target, 15)), w);
            }
        } else {
            let tb = trampoline_bytes(bytes_at(n, target, 15)->0, target);
            assert(tb.len() == 29);
            let n1 = put_bytes(n, l.fresh, tb);
            lemma_write_bytes(n, n, w, l.fresh, tb);
            lemma_weaken(n, n1, w.union(span(l.fresh, 29)), w);
            lemma_bytes_readable(n, n1, w, target, 15);
            lemma_write_bytes(n, n1, w, target, pb);
            lemma_weaken(n, o.1, w.union(span(target, 15)), w);
        }
    }
}

/// Each step of binding changes its own fields alone.
#[verifier::rlimit(40)]
pub(crate) proof fn lemma_stage_frames(m: Bytes, l: Links, hook: SeedHook, h: u32)
    requires
        separate(fields(m, l, hook, h)),
        rooted(m, l, hook, h),
        !hook.installed,
        trampoline_right(m, l, hook),
        l.sim_base != 0 ==> u32_at(m, off(l.sim_base, TURN_CLAMP_POS_RVA)) != Some(0u32),
    ensures
        ({
            let n = stages(m, l, hook, h);
            let f = fields(m, l, hook, h);
            &&& same_but(m, n[0], field(f, 0))
            &&& same_but(n[0], n[1], field(f, 1))
            &&& same_but(n[1], n[2], field(f, 3))
            &&& same_but(n[2], n[3], field(f, 4).union(field(f, 5)))
            &&& same_but(n[3], n[4], field(f, 6))
            &&& same_but(n[4], n[5], field(f, 7))
            &&& same_but(n[5], n[6], field(f, 2))
            &&& same_but(n[6], n[7], field(f, 8).union(field(f, 9)))
        }),
{
    let n = stages(m, l, hook, h);
    let f = fields(m, l, hook, h);
    let tls = l.tls;
    let body = body_of(m, tls, h);
    lemma_stages_resolved(m, l, hook, h);
    let none = Set::<u64>::empty();
    assert(same_but(m, n[0], field(f, 0))) by {
        lemma_write_slot(m, m, none, state_slot(m, tls, h), pattern32(0));
        lemma_weaken(m, n[0], none.union(slot_at(m, state_slot(m, tls, h))), field(f, 0));
    }
    assert(same_but(n[0], n[1], field(f, 1))) by {
        assert(body_of(n[0], tls, h) == body);
        if body != 0 {
            let a = off(body, BODY_AI_REF);
            lemma_write32(n[0], n[0], none, a, NO_HANDLE);
            lemma_weaken(n[0], n[1], none.union(word_at(n[0], a)), field(f, 1));
        }
    }
    assert(same_but(n[1], n[2], field(f, 3))) by {
        assert(unit_slot(n[1], tls) == unit_slot(m, tls));
        let a = team_slot(m, tls);
        if let Some(t) = crate::simtime::unit::team_of(n[1], tls, h) {
            if a != 0 {
                let v = pattern8(signed8((t % 0x100) as u8));
                lemma_write8(n[1], n[1], none, a, v);
                lemma_weaken(n[1], n[2], none.union(span(a, 1)), field(f, 3));
            }
        }
    }
    assert(same_but(n[2], n[3], field(f, 4).union(field(f, 5)))) by {
        let w = field(f, 4).union(field(f, 5));
        assert(same_but(n[2], n[2], w));
        if l.sim_base != 0 {
            let v = crate::ieee::magnitude32(super::CONTROL_TURN_RATE);
            let a = off(l.sim_base, TURN_CLAMP_POS_RVA);
            let b = off(l.sim_base, TURN_CLAMP_NEG_RVA);
            lemma_write32(n[2], n[2], w, a, v);
            lemma_weaken(n[2], store32(n[2], a, v), w.union(word_at(n[2], a)), w);
            lemma_write32(n[2], store32(n[2], a, v), w, b, negated32(v));
            lemma_weaken(
                n[2],
                clamp_set(n[2], l.sim_base, v),
                w.union(word_at(n[2], b)),
                w,
            );
        }
    }
    assert(same_but(n[3], n[4], field(f, 6))) by {
        let a = unit_slot(m, tls);
        assert(unit_slot(n[3], tls) == a);
        lemma_write_slot(n[3], n[3], none, a, h);
        lemma_weaken(n[3], n[4], none.union(slot_at(n[3], a)), field(f, 6));
    }
    assert(same_but(n[4], n[5], field(f, 7))) by {
        let a = control_slot(m, tls);
        assert(control_slot(n[4], tls) == a);
        lemma_write_slot(n[4], n[4], none, a, h);
        lemma_weaken(n[4], n[5], none.union(slot_at(n[4], a)), field(f, 7));
    }
    assert(same_but(n[5], n[6], field(f, 2))) by {
        assert(body_of(n[5], tls, h) == body);
        if let Some((pcg, ph)) = local_player(n[5], tls) {
            if body != 0 {
                let a = off(body, BODY_OWNER);
                lemma_write16(
                    n[5],
                    n[5],
                    none,
                    a,
                    pattern16(crate::memory::signed16((ph % 0x1_0000) as u16)),
                );
                lemma_weaken(n[5], n[6], none.union(half_at(n[5], a)), field(f, 2));
            }
        }
    }
    lemma_install_frame(n[6], l, hook, field(f, 8).union(field(f, 9)));
}

/// A word of field `k` that is there after stage `i` is there after the last one, where no later
/// stage writes the field.
proof fn lemma_word_stays(a: Bytes, b: Bytes, w: Set<u64>, f: Seq<(u64, int)>, k: int)
    requires
        same_but(a, b, w),
        0 <= k < f.len(),
        f[k].1 == 4,
        forall|x: u64| #[trigger] inside(x, f[k].0, f[k].1) ==> !w.contains(x),
    ensures
        u32_at(b, f[k].0) == u32_at(a, f[k].0),
{
    lemma_read32(a, b, w, f[k].0);
}

/// The fields that are written after stage `k`.
pub open spec fn later(f: Seq<(u64, int)>, k: int) -> Set<u64> {
    let w6 = field(f, 8).union(field(f, 9));
    let w5 = field(f, 2).union(w6);
    let w4 = field(f, 7).union(w5);
    let w3 = field(f, 6).union(w4);
    let w2 = field(f, 4).union(field(f, 5)).union(w3);
    let w1 = field(f, 3).union(w2);
    if k == 0 {
        field(f, 1).union(w1)
    } else if k == 1 {
        w1
    } else if k == 2 {
        w2
    } else if k == 4 {
        w4
    } else {
        w5
    }
}

/// What a stage leaves is changed by later ones alone, and all stages can write the same cells.
pub(crate) proof fn lemma_tails(m: Bytes, l: Links, hook: SeedHook, h: u32)
    requires
        separate(fields(m, l, hook, h)),
        rooted(m, l, hook, h),
        !hook.installed,
        trampoline_right(m, l, hook),
        l.sim_base != 0 ==> u32_at(m, off(l.sim_base, TURN_CLAMP_POS_RVA)) != Some(0u32),
    ensures
        ({
            let n = stages(m, l, hook, h);
            let f = fields(m, l, hook, h);
            &&& same_but(n[0], n[7], later(f, 0))
            &&& same_but(n[1], n[7], later(f, 1))
            &&& same_but(n[2], n[7], later(f, 2))
            &&& same_but(n[4], n[7], later(f, 4))
            &&& same_but(n[5], n[7], later(f, 5))
            &&& n[0].dom() == m.dom()
            &&& n[1].dom() == m.dom()
            &&& n[3].dom() == m.dom()
            &&& n[4].dom() == m.dom()
        }),
{
    let n = stages(m, l, hook, h);
    let f = fields(m, l, hook, h);
    lemma_stage_frames(m, l, hook, h);
    let w6 = field(f, 8).union(field(f, 9));
    let w5 = field(f, 2).union(w6);
    let w4 = field(f, 7).union(w5);
    let w3 = field(f, 6).union(w4);
    let w2 = field(f, 4).union(field(f, 5)).union(w3);
    lemma_chain(n[5], n[6], n[7], field(f, 2), w6);
    lemma_chain(n[4], n[5], n[7], field(f, 7), w5);
    lemma_chain(n[3], n[4], n[7], field(f, 6), w4);
    lemma_chain(n[2], n[3], n[7], field(f, 4).union(field(f, 5)), w3);
    lemma_chain(n[1], n[2], n[7], field(f, 3), w2);
    lemma_chain(n[0], n[1], n[7], field(f, 1), field(f, 3).union(w2));
}

proof fn lemma_same_cells(m: Bytes, n: Bytes, a: u64, v: u32)
    requires
        m.dom() == n.dom(),
        u32_at(m, a) is Some,
    ensures
        u32_at(store32(n, a, v), a) == Some(v),
{
    reveal(u32_at);
    reveal(u16_at);
    assert(u32_at(n, a) is Some);
    lemma_put32_frame(n, a, v);
}

/// Once control is taken, it holds: both bindings lead to the unit, the unit's AI is stopped and
/// detached, the unit's owner is the local player, and the player is seen as one of the unit's
/// team.
pub proof fn law_control_takes_hold(s: Possess, m: Bytes, l: Links, hook: SeedHook, h: u32)
    requires
        separate(fields(m, l, hook, h)),
        rooted(m, l, hook, h),
        restorable(s, m, l, hook, h),
    ensures
        ({
            let n = bound(m, l, 0, hook, h).m;
            let us = unit_slot(m, l.tls);
            let cs = control_slot(m, l.tls);
            let st = state_slot(m, l.tls, h);
            let team = team_slot(m, l.tls);
            &&& slot_value(m, us) is Some ==> slot_value(n, us) == Some(h)
            &&& slot_value(m, cs) is Some ==> slot_value(n, cs) == Some(h)
            &&& slot_value(m, st) is Some ==> slot_value(n, st) == Some(0u32)
            &&& ai_ref(m, l.tls, h) is Some ==> ai_ref(n, l.tls, h) == Some(NO_HANDLE)
            &&& owner_of(m, l.tls, h) is Some && local_player(m, l.tls) is Some ==> owner_of(
                n,
                l.tls,
                h,
            ) == Some(signed16(((local_player(m, l.tls)->0).1 % 0x1_0000) as u16))
            &&& bound(m, l, 0, hook, h).b.old_team is Some ==> u8_at(n, team) == Some(
                (bound(m, l, 0, hook, h).b.team->0 % 0x100) as u8,
            )
        }),
{
    let n = stages(m, l, hook, h);
    let f = fields(m, l, hook, h);
    let o = bound(m, l, 0, hook, h);
    let st = state_slot(m, l.tls, h);
    let us = unit_slot(m, l.tls);
    let cs = control_slot(m, l.tls);
    let body = body_of(m, l.tls, h);
    lemma_stages_resolved(m, l, hook, h);
    lemma_tails(m, l, hook, h);
    assert(slot_value(m, st) is Some ==> slot_value(o.m, st) == Some(0u32)) by {
        lemma_hold(m, l, hook, h, 0, n[0], later(f, 0));
        if slot_value(m, st) is Some {
            lemma_same_cells(m, m, st, 0);
        }
    }
    assert(ai_ref(m, l.tls, h) is Some ==> ai_ref(o.m, l.tls, h) == Some(NO_HANDLE)) by {
        assert(body_of(n[0], l.tls, h) == body);
        assert(body_of(n[7], l.tls, h) == body);
        lemma_hold(m, l, hook, h, 1, n[1], later(f, 1));
        if ai_ref(m, l.tls, h) is Some {
            lemma_same_cells(m, n[0], off(body, BODY_AI_REF), NO_HANDLE);
        }
    }
    assert(slot_value(m, us) is Some ==> slot_value(o.m, us) == Some(h)) by {
        assert(unit_slot(n[3], l.tls) == us);
        lemma_hold(m, l, hook, h, 6, n[4], later(f, 4));
        if slot_value(m, us) is Some {
            lemma_same_cells(m, n[3], us, h);
        }
    }
    assert(slot_value(m, cs) is Some ==> slot_value(o.m, cs) == Some(h)) by {
        assert(control_slot(n[4], l.tls) == cs);
        lemma_hold(m, l, hook, h, 7, n[5], later(f, 5));
        if slot_value(m, cs) is Some {
            lemma_same_cells(m, n[4], cs, h);
        }
    }
    lemma_hold_owner(s, m, l, hook, h);
    if o.b.old_team is Some {
        lemma_hold_team(s, m, l, hook, h);
    }
}

/// The unit's owner is the local player.
#[verifier::rlimit(40)]
proof fn lemma_hold_owner(s: Possess, m: Bytes, l: Links, hook: SeedHook, h: u32)
    requires
        separate(fields(m, l, hook, h)),
        rooted(m, l, hook, h),
        restorable(s, m, l, hook, h),
    ensures
        owner_of(m, l.tls, h) is Some && local_player(m, l.tls) is Some ==> owner_of(
            bound(m, l, 0, hook, h).m,
            l.tls,
            h,
        ) == Some(signed16(((local_player(m, l.tls)->0).1 % 0x1_0000) as u16)),
{
    let n = stages(m, l, hook, h);
    let f = fields(m, l, hook, h);
    let body = body_of(m, l.tls, h);
    lemma_stages_resolved(m, l, hook, h);
    lemma_stage_frames(m, l, hook, h);
    lemma_tails(m, l, hook, h);
    assert(body_of(n[5], l.tls, h) == body && body_of(n[7], l.tls, h) == body);
    assert(local_player(n[5], l.tls) == local_player(m, l.tls));
    if owner_of(m, l.tls, h) is Some && local_player(m, l.tls) is Some {
        let a = off(body, BODY_OWNER);
        let v = signed16(((local_player(m, l.tls)->0).1 % 0x1_0000) as u16);
        assert(n[5].dom() == m.dom());
        assert(u16_at(n[5], a) is Some) by {
            reveal(u16_at);
        }
        lemma_put16_frame(n[5], a, pattern16(v));
        assert(n[6] == put16(n[5], a, pattern16(v)));
        let w = field(f, 8).union(field(f, 9));
        assert forall|x: u64| #[trigger] inside(x, a, 2) implies u8_at(n[7], x) == u8_at(
            n[6],
            x,
        ) by {
            assert(inside(x, f[2].0, f[2].1));
            lemma_sep(f, 2, 8, x);
            lemma_sep(f, 2, 9, x);
            assert(!w.contains(x));
        }
        lemma_agree16(n[7], n[6], a);
        assert(signed16(pattern16(v)) == v);
    }
}

/// The player is seen as one of the unit's team.
#[verifier::rlimit(40)]
proof fn lemma_hold_team(s: Possess, m: Bytes, l: Links, hook: SeedHook, h: u32)
    requires
        separate(fields(m, l, hook, h)),
        rooted(m, l, hook, h),
        restorable(s, m, l, hook, h),
        bound(m, l, 0, hook, h).b.old_team is Some,
    ensures
        u8_at(bound(m, l, 0, hook, h).m, team_slot(m, l.tls)) == Some(
            (bound(m, l, 0, hook, h).b.team->0 % 0x100) as u8,
        ),
{
    let n = stages(m, l, hook, h);
    let f = fields(m, l, hook, h);
    let o = bound(m, l, 0, hook, h);
    lemma_stages_resolved(m, l, hook, h);
    lemma_tails(m, l, hook, h);
    lemma_binding(m, l, hook, h);
    assert(unit_slot(n[1], l.tls) == unit_slot(m, l.tls));
    lemma_hold_byte(m, l, hook, h, n[2], later(f, 2));
    let v = (o.b.team->0 % 0x100) as u8;
    assert(pattern8(signed8(v)) == v);
    assert(n[2] == store8(n[1], team_slot(m, l.tls), v));
    assert(u8_at(m, team_slot(m, l.tls)) is Some);
}

/// The words of field `k` stay as they are in `a`, which is the outcome but for `w`.
proof fn lemma_hold(m: Bytes, l: Links, hook: SeedHook, h: u32, k: int, a: Bytes, w: Set<u64>)
    requires
        separate(fields(m, l, hook, h)),
        same_but(a, bound(m, l, 0, hook, h).m, w),
        k == 0 || k == 1 || k == 6 || k == 7,
        w == later(
            fields(m, l, hook, h),
            if k == 6 {
                4
            } else if k == 7 {
                5
            } else {
                k
            },
        ),
    ensures
        fields(m, l, hook, h)[k].1 == 4 ==> u32_at(
            bound(m, l, 0, hook, h).m,
            fields(m, l, hook, h)[k].0,
        ) == u32_at(a, fields(m, l, hook, h)[k].0),
{
    let f = fields(m, l, hook, h);
    if f[k].1 == 4 {
        assert forall|x: u64| #[trigger] inside(x, f[k].0, f[k].1) implies !w.contains(x) by {
            if k != 1 {
                lemma_sep(f, k, 1, x);
            }
            lemma_sep(f, k, 2, x);
            lemma_sep(f, k, 3, x);
            lemma_sep(f, k, 4, x);
            lemma_sep(f, k, 5, x);
            if k != 6 {
                lemma_sep(f, k, 6, x);
            }
            if k != 7 {
                lemma_sep(f, k, 7, x);
            }
            lemma_sep(f, k, 8, x);
            lemma_sep(f, k, 9, x);
        }
        lemma_word_stays(a, bound(m, l, 0, hook, h).m, w, f, k);
    }
}

/// The player's team stays as it is in `a`, which is the outcome but for `w`.
proof fn lemma_hold_byte(m: Bytes, l: Links, hook: SeedHook, h: u32, a: Bytes, w: Set<u64>)
    requires
        separate(fields(m, l, hook, h)),
        same_but(a, bound(m, l, 0, hook, h).m, w),
        team_slot(m, l.tls) != 0,
        w == later(fields(m, l, hook, h), 2),
    ensures
        u8_at(bound(m, l, 0, hook, h).m, team_slot(m, l.tls)) == u8_at(a, team_slot(m, l.tls)),
{
    let f = fields(m, l, hook, h);
    let x = team_slot(m, l.tls);
    assert(inside(x, f[3].0, f[3].1));
    lemma_sep(f, 3, 2, x);
    lemma_sep(f, 3, 4, x);
    lemma_sep(f, 3, 5, x);
    lemma_sep(f, 3, 6, x);
    lemma_sep(f, 3, 7, x);
    lemma_sep(f, 3, 8, x);
    lemma_sep(f, 3, 9, x);
}

} // verus!
