//! That control holds from tick to tick.

use vstd::prelude::*;

use super::laws::{
    anchor_body, field, fields, half_at, later, law_control_takes_hold,
    law_tick_changes_only_fields, law_ticks_change_only_fields, lemma_anchor, lemma_binding,
    lemma_chain, lemma_read32, lemma_readable, lemma_sep, lemma_stage_frames, lemma_stages_resolved,
    lemma_tails, lemma_weaken, lemma_write16, lemma_write32, lemma_write8, lemma_write_slot,
    own_handle, owner_of, restorable, rooted, separate, slot_at, stages, still, tick_fields,
    tick_memory, ticks_memory, word_at, worn,
};
use super::{
    Links, Possess, bound, controlling_state, held_anchor, held_bindings, sect, team_byte_set,
};
use crate::hooks::sim_seed::SeedHook;
use crate::memory::{
    Bytes, apart, inside, lemma_agree16, lemma_put16_frame, lemma_put32_frame, off, pattern16,
    pattern8, same_but, signed16, signed8, span, store16, store32, store_triple, triple_at, u16_at,
    u32_at, u8_at,
};
use crate::simtime::ai::state_slot;
use crate::simtime::code::{TURN_CLAMP_NEG_RVA, TURN_CLAMP_POS_RVA, clamp_set};
use crate::simtime::objects::{BODY_POS, NO_HANDLE, body_of, local_player, unit_slot};
use crate::simtime::player::{control_slot, slot_set, slot_value, team_slot};
use crate::simtime::unit::{
    BODY_AI_REF, BODY_OWNER, ai_ref, ai_ref_set, anchor_sources, lemma_triple_stands, owner_set,
};

verus! {

/// Memory after each step of a tick: the two bindings, the owner, the AI detached, the team, and
/// the streaming anchor.
spec fn steps(t: Possess, n: Bytes, tls: u64, target: [u32; 3], moved: u32) -> Seq<Bytes> {
    let h = t.cur_handle;
    let m1 = slot_set(n, unit_slot(n, tls), h);
    let m2 = slot_set(m1, control_slot(m1, tls), h);
    let m3 = match local_player(m2, tls) {
        None => m2,
        Some((pcg, ph)) => owner_set(m2, tls, h, signed16((ph % 0x1_0000) as u16)),
    };
    let m4 = ai_ref_set(m3, tls, h, NO_HANDLE);
    seq![m1, m2, m3, m4, held_bindings(t, n, tls), tick_memory(t, n, tls, target, moved)]
}

/// What the steps of a tick behind step `k` write.
spec fn behind(f: Seq<(u64, int)>, k: int) -> Set<u64> {
    let r4 = field(f, 10);
    let r3 = field(f, 3).union(r4);
    let r2 = field(f, 1).union(r3);
    let r1 = field(f, 2).union(r2);
    if k == 0 {
        field(f, 7).union(r1)
    } else if k == 1 {
        r1
    } else if k == 2 {
        r2
    } else if k == 3 {
        r3
    } else {
        r4
    }
}

/// Every step of a tick finds the fields where they were, and the steps behind it write other
/// fields.
#[verifier::rlimit(40)]
proof fn lemma_steps(
    s: Possess,
    t: Possess,
    m: Bytes,
    n: Bytes,
    l: Links,
    hook: SeedHook,
    h: u32,
    target: [u32; 3],
    moved: u32,
)
    requires
        separate(fields(m, l, hook, h)),
        rooted(m, l, hook, h),
        restorable(s, m, l, hook, h),
        still(t, controlling_state(s, h, l.pawn, bound(m, l, 0, hook, h).b)),
        same_but(m, n, worn(m, l, hook, h)),
    ensures
        ({
            let p = steps(t, n, l.tls, target, moved);
            let f = fields(m, l, hook, h);
            &&& forall|k: int|
                0 <= k < 6 ==> {
                    &&& same_but(m, #[trigger] p[k], worn(m, l, hook, h))
                    &&& body_of(p[k], l.tls, h) == body_of(m, l.tls, h)
                    &&& local_player(p[k], l.tls) == local_player(m, l.tls)
                    &&& unit_slot(p[k], l.tls) == unit_slot(m, l.tls)
                    &&& control_slot(p[k], l.tls) == control_slot(m, l.tls)
                }
            &&& unit_slot(n, l.tls) == unit_slot(m, l.tls)
            &&& same_but(p[0], p[5], behind(f, 0))
            &&& same_but(p[1], p[5], behind(f, 1))
            &&& same_but(p[2], p[5], behind(f, 2))
            &&& same_but(p[3], p[5], behind(f, 3))
            &&& same_but(p[4], p[5], behind(f, 4))
        }),
{
    reveal(rooted);
    let o = bound(m, l, 0, hook, h);
    let taken = controlling_state(s, h, l.pawn, o.b);
    let p = steps(t, n, l.tls, target, moved);
    let f = fields(m, l, hook, h);
    let w = worn(m, l, hook, h);
    let none = Set::<u64>::empty();
    let tls = l.tls;
    let body = body_of(m, tls, h);
    let us = unit_slot(m, tls);
    let cs = control_slot(m, tls);
    lemma_binding(m, l, hook, h);
    lemma_write_slot(m, n, w, us, h);
    lemma_weaken(m, p[0], w.union(slot_at(m, us)), w);
    lemma_write_slot(m, p[0], w, cs, h);
    lemma_weaken(m, p[1], w.union(slot_at(m, cs)), w);
    assert(same_but(p[0], p[0], none));
    lemma_write_slot(p[0], p[0], none, cs, h);
    lemma_weaken(p[0], p[1], none.union(slot_at(p[0], cs)), field(f, 7));
    if let Some((pcg, ph)) = local_player(p[1], tls) {
        if body != 0 {
            let a = off(body, BODY_OWNER);
            let x = pattern16(signed16((ph % 0x1_0000) as u16));
            lemma_write16(m, p[1], w, a, x);
            lemma_weaken(m, p[2], w.union(half_at(m, a)), w);
            assert(same_but(p[1], p[1], none));
            lemma_write16(p[1], p[1], none, a, x);
            lemma_weaken(p[1], p[2], none.union(half_at(p[1], a)), field(f, 2));
        }
    }
    assert(same_but(m, p[2], w) && same_but(p[1], p[2], field(f, 2)));
    if body != 0 {
        let a = off(body, BODY_AI_REF);
        lemma_write32(m, p[2], w, a, NO_HANDLE);
        lemma_weaken(m, p[3], w.union(word_at(m, a)), w);
        assert(same_but(p[2], p[2], none));
        lemma_write32(p[2], p[2], none, a, NO_HANDLE);
        lemma_weaken(p[2], p[3], none.union(word_at(p[2], a)), field(f, 1));
    }
    assert(same_but(m, p[3], w) && same_but(p[2], p[3], field(f, 1)));
    if t.saved_player_team is Some {
        let team = team_slot(m, tls);
        lemma_write8(m, p[3], w, team, pattern8(sect(t)));
        lemma_weaken(m, p[4], w.union(span(team, 1)), w);
        assert(same_but(p[3], p[3], none));
        lemma_write8(p[3], p[3], none, team, pattern8(sect(t)));
        lemma_weaken(p[3], p[4], none.union(span(team, 1)), field(f, 3));
    }
    assert(same_but(m, p[4], w) && same_but(p[3], p[4], field(f, 3)));
    law_tick_changes_only_fields(s, t, m, n, l, hook, h, target, moved);
    let a = t.saved_player_handle;
    assert(a == own_handle(m, tls));
    let b = body_of(p[4], tls, a);
    assert(b == anchor_body(m, tls));
    assert(same_but(p[4], p[4], none));
    if a != NO_HANDLE && crate::simtime::unit::anchor_sources(p[4], tls, a, t.cur_handle) is Some {
        lemma_anchor(p[4], p[4], none, off(b, BODY_POS), target);
        lemma_weaken(p[4], p[5], none.union(span(off(b, BODY_POS), 12)), field(f, 10));
    }
    assert(same_but(p[4], p[5], field(f, 10)));
    lemma_chain(p[3], p[4], p[5], field(f, 3), behind(f, 4));
    lemma_chain(p[2], p[3], p[5], field(f, 1), behind(f, 3));
    lemma_chain(p[1], p[2], p[5], field(f, 2), behind(f, 2));
    lemma_chain(p[0], p[1], p[5], field(f, 7), behind(f, 1));
}

/// The byte `x` of field `k` is not written behind step `i`, which writes that field.
proof fn lemma_not_behind(f: Seq<(u64, int)>, k: int, i: int, x: u64)
    requires
        separate(f),
        f.len() == 11,
        inside(x, f[k].0, f[k].1),
        (k == 6 && i == 0) || (k == 7 && i == 1) || (k == 2 && i == 2) || (k == 1 && i == 3) || (k
            == 3 && i == 4),
    ensures
        !behind(f, i).contains(x),
{
    if k != 1 {
        lemma_sep(f, k, 1, x);
    }
    if k != 2 {
        lemma_sep(f, k, 2, x);
    }
    if k != 3 {
        lemma_sep(f, k, 3, x);
    }
    if k != 7 {
        lemma_sep(f, k, 7, x);
    }
    lemma_sep(f, k, 10, x);
}

/// Field `k`, a word that step `i` wrote, is there when the tick is over.
proof fn lemma_word_holds(p: Bytes, r: Bytes, f: Seq<(u64, int)>, k: int, i: int)
    requires
        separate(f),
        f.len() == 11,
        f[k].1 == 4,
        same_but(p, r, behind(f, i)),
        (k == 6 && i == 0) || (k == 7 && i == 1) || (k == 1 && i == 3),
    ensures
        u32_at(r, f[k].0) == u32_at(p, f[k].0),
{
    assert forall|x: u64| #[trigger] inside(x, f[k].0, 4) implies !behind(f, i).contains(x) by {
        lemma_not_behind(f, k, i, x);
    }
    lemma_read32(p, r, behind(f, i), f[k].0);
}

/// A word that is written can be read back.
proof fn lemma_written32(n: Bytes, a: u64, v: u32)
    requires
        u32_at(n, a) is Some,
    ensures
        u32_at(store32(n, a, v), a) == Some(v),
{
    lemma_put32_frame(n, a, v);
}

/// Control holds in `n`: both bindings lead to the unit, its AI is stopped and detached, its owner
/// is the local player, and the player is seen as one of the team `w`. Each where memory has it.
pub open spec fn held(m: Bytes, n: Bytes, tls: u64, h: u32, w: Option<u16>) -> bool {
    &&& slot_value(m, unit_slot(m, tls)) is Some ==> slot_value(n, unit_slot(m, tls)) == Some(h)
    &&& slot_value(m, control_slot(m, tls)) is Some ==> slot_value(n, control_slot(m, tls)) == Some(
        h,
    )
    &&& slot_value(m, state_slot(m, tls, h)) is Some ==> slot_value(n, state_slot(m, tls, h))
        == Some(0u32)
    &&& ai_ref(m, tls, h) is Some ==> ai_ref(n, tls, h) == Some(0xffff_ffffu32)
    &&& owner_of(m, tls, h) is Some && local_player(m, tls) is Some ==> owner_of(n, tls, h) == Some(
        signed16(((local_player(m, tls)->0).1 % 0x1_0000) as u16),
    )
    &&& w is Some ==> u8_at(n, team_slot(m, tls)) == Some((w->0 % 0x100) as u8)
}

/// The unit's team word as it was read when control was taken: none where the player's own team
/// could not be read, and then the player keeps it.
pub open spec fn team_taken(m: Bytes, l: Links, hook: SeedHook, h: u32) -> Option<u16> {
    if bound(m, l, 0, hook, h).b.old_team is Some {
        bound(m, l, 0, hook, h).b.team
    } else {
        None
    }
}

proof fn lemma_tick_words(
    s: Possess,
    t: Possess,
    m: Bytes,
    n: Bytes,
    l: Links,
    hook: SeedHook,
    h: u32,
    target: [u32; 3],
    moved: u32,
)
    requires
        separate(fields(m, l, hook, h)),
        rooted(m, l, hook, h),
        restorable(s, m, l, hook, h),
        still(t, controlling_state(s, h, l.pawn, bound(m, l, 0, hook, h).b)),
        same_but(m, n, worn(m, l, hook, h)),
    ensures
        ({
            let r = tick_memory(t, n, l.tls, target, moved);
            let us = unit_slot(m, l.tls);
            let cs = control_slot(m, l.tls);
            &&& slot_value(m, us) is Some ==> slot_value(r, us) == Some(h)
            &&& slot_value(m, cs) is Some ==> slot_value(r, cs) == Some(h)
            &&& ai_ref(m, l.tls, h) is Some ==> ai_ref(r, l.tls, h) == Some(NO_HANDLE)
        }),
{
    let p = steps(t, n, l.tls, target, moved);
    let f = fields(m, l, hook, h);
    let w = worn(m, l, hook, h);
    let us = unit_slot(m, l.tls);
    let cs = control_slot(m, l.tls);
    let body = body_of(m, l.tls, h);
    lemma_steps(s, t, m, n, l, hook, h, target, moved);
    if slot_value(m, us) is Some {
        lemma_readable(m, n, w, us);
        lemma_written32(n, us, h);
        lemma_word_holds(p[0], p[5], f, 6, 0);
    }
    if slot_value(m, cs) is Some {
        assert(control_slot(p[0], l.tls) == cs);
        lemma_readable(m, p[0], w, cs);
        lemma_written32(p[0], cs, h);
        lemma_word_holds(p[1], p[5], f, 7, 1);
    }
    if ai_ref(m, l.tls, h) is Some {
        let a = off(body, BODY_AI_REF);
        assert(body_of(p[2], l.tls, h) == body);
        lemma_readable(m, p[2], w, a);
        lemma_written32(p[2], a, NO_HANDLE);
        lemma_word_holds(p[3], p[5], f, 1, 3);
    }
}

proof fn lemma_tick_owner(
    s: Possess,
    t: Possess,
    m: Bytes,
    n: Bytes,
    l: Links,
    hook: SeedHook,
    h: u32,
    target: [u32; 3],
    moved: u32,
)
    requires
        separate(fields(m, l, hook, h)),
        rooted(m, l, hook, h),
        restorable(s, m, l, hook, h),
        still(t, controlling_state(s, h, l.pawn, bound(m, l, 0, hook, h).b)),
        same_but(m, n, worn(m, l, hook, h)),
    ensures
        owner_of(m, l.tls, h) is Some && local_player(m, l.tls) is Some ==> owner_of(
            tick_memory(t, n, l.tls, target, moved),
            l.tls,
            h,
        ) == Some(signed16(((local_player(m, l.tls)->0).1 % 0x1_0000) as u16)),
{
    let p = steps(t, n, l.tls, target, moved);
    let f = fields(m, l, hook, h);
    let w = worn(m, l, hook, h);
    let body = body_of(m, l.tls, h);
    lemma_steps(s, t, m, n, l, hook, h, target, moved);
    if owner_of(m, l.tls, h) is Some && local_player(m, l.tls) is Some {
        let a = off(body, BODY_OWNER);
        let v = signed16(((local_player(m, l.tls)->0).1 % 0x1_0000) as u16);
        assert(body_of(p[1], l.tls, h) == body);
        assert(local_player(p[1], l.tls) == local_player(m, l.tls));
        lemma_readable(m, p[1], w, a);
        lemma_put16_frame(p[1], a, pattern16(v));
        assert(p[2] == store16(p[1], a, pattern16(v)));
        assert forall|x: u64| #[trigger] inside(x, a, 2) implies u8_at(p[5], x) == u8_at(
            p[2],
            x,
        ) by {
            assert(inside(x, f[2].0, f[2].1));
            lemma_not_behind(f, 2, 2, x);
        }
        lemma_agree16(p[5], p[2], a);
        assert(signed16(pattern16(v)) == v);
    }
}

proof fn lemma_tick_team(
    s: Possess,
    t: Possess,
    m: Bytes,
    n: Bytes,
    l: Links,
    hook: SeedHook,
    h: u32,
    target: [u32; 3],
    moved: u32,
)
    requires
        separate(fields(m, l, hook, h)),
        rooted(m, l, hook, h),
        restorable(s, m, l, hook, h),
        still(t, controlling_state(s, h, l.pawn, bound(m, l, 0, hook, h).b)),
        same_but(m, n, worn(m, l, hook, h)),
    ensures
        team_taken(m, l, hook, h) matches Some(w) ==> u8_at(
            tick_memory(t, n, l.tls, target, moved),
            team_slot(m, l.tls),
        ) == Some((w % 0x100) as u8),
{
    let o = bound(m, l, 0, hook, h);
    let p = steps(t, n, l.tls, target, moved);
    let f = fields(m, l, hook, h);
    let w = worn(m, l, hook, h);
    lemma_steps(s, t, m, n, l, hook, h, target, moved);
    lemma_binding(m, l, hook, h);
    if let Some(word) = team_taken(m, l, hook, h) {
        let team = team_slot(m, l.tls);
        let v = (word % 0x100) as u8;
        assert(t.possessed_team == word as u32);
        assert(sect(t) == signed8(v));
        assert(pattern8(signed8(v)) == v);
        assert(unit_slot(p[3], l.tls) == unit_slot(m, l.tls));
        assert(u8_at(m, team) is Some);
        lemma_readable(m, p[3], w, team);
        assert(p[4] == team_byte_set(p[3], l.tls, sect(t)));
        assert(u8_at(p[4], team) == Some(v));
        assert(inside(team, f[3].0, f[3].1));
        lemma_not_behind(f, 3, 4, team);
    }
}

/// Once control is taken it holds, after any number of ticks with the unit alive: both bindings
/// lead to the unit, its AI is stopped and detached, its owner is the local player, and the
/// player's team is the lower byte of the unit's team word as it was read when control was taken.
pub proof fn law_control_holds_through_ticks(
    s: Possess,
    t: Possess,
    m: Bytes,
    l: Links,
    hook: SeedHook,
    h: u32,
    ticks: Seq<([u32; 3], u32)>,
)
    requires
        separate(fields(m, l, hook, h)),
        rooted(m, l, hook, h),
        restorable(s, m, l, hook, h),
        still(t, controlling_state(s, h, l.pawn, bound(m, l, 0, hook, h).b)),
    ensures
        held(
            m,
            ticks_memory(t, bound(m, l, 0, hook, h).m, l.tls, ticks),
            l.tls,
            h,
            team_taken(m, l, hook, h),
        ),
    decreases ticks.len(),
{
    let o = bound(m, l, 0, hook, h);
    if ticks.len() == 0 {
        law_control_takes_hold(s, m, l, hook, h);
    } else {
        let before = ticks_memory(t, o.m, l.tls, ticks.drop_last());
        let (target, moved) = ticks.last();
        let r = tick_memory(t, before, l.tls, target, moved);
        law_control_holds_through_ticks(s, t, m, l, hook, h, ticks.drop_last());
        law_ticks_change_only_fields(s, t, m, l, hook, h, ticks.drop_last());
        law_tick_changes_only_fields(s, t, m, before, l, hook, h, target, moved);
        lemma_tick_words(s, t, m, before, l, hook, h, target, moved);
        lemma_tick_owner(s, t, m, before, l, hook, h, target, moved);
        lemma_tick_team(s, t, m, before, l, hook, h, target, moved);
        let f = fields(m, l, hook, h);
        let st = state_slot(m, l.tls, h);
        if slot_value(m, st) is Some {
            assert forall|x: u64| #[trigger] inside(x, st, 4) implies !tick_fields(f).contains(
                x,
            ) by {
                assert(inside(x, f[0].0, f[0].1));
                lemma_sep(f, 0, 1, x);
                lemma_sep(f, 0, 2, x);
                lemma_sep(f, 0, 3, x);
                lemma_sep(f, 0, 6, x);
                lemma_sep(f, 0, 7, x);
                lemma_sep(f, 0, 10, x);
            }
            lemma_read32(before, r, tick_fields(f), st);
        }
    }
}

/// The team word that is kept while a unit is controlled is the one that the unit had when control
/// was taken, where the AI's state does not lie in that word.
pub proof fn law_team_is_units_own(s: Possess, m: Bytes, l: Links, hook: SeedHook, h: u32)
    requires
        separate(fields(m, l, hook, h)),
        rooted(m, l, hook, h),
        restorable(s, m, l, hook, h),
        apart(
            fields(m, l, hook, h)[0].0,
            fields(m, l, hook, h)[0].1,
            off(body_of(m, l.tls, h), 0x1ba),
            2,
        ),
    ensures
        bound(m, l, 0, hook, h).b.team == if body_of(m, l.tls, h) == 0 {
            None
        } else {
            u16_at(m, off(body_of(m, l.tls, h), 0x1ba))
        },
{
    let n = stages(m, l, hook, h);
    let f = fields(m, l, hook, h);
    let body = body_of(m, l.tls, h);
    let a = off(body, 0x1ba);
    lemma_stages_resolved(m, l, hook, h);
    lemma_stage_frames(m, l, hook, h);
    assert(body_of(n[1], l.tls, h) == body);
    if body != 0 {
        assert forall|x: u64| #[trigger] inside(x, a, 2) implies u8_at(n[1], x) == u8_at(m, x) by {
            assert(!inside(x, f[1].0, f[1].1));
            assert(!inside(x, f[0].0, f[0].1));
        }
        lemma_agree16(n[1], m, a);
    }
}

/// The two limits of the turn rate in `n`: 20 radians per second either way, where memory has them.
pub open spec fn turns_freely(m: Bytes, n: Bytes, sim_base: u64) -> bool {
    let a = off(sim_base, 0x8f_2be8);
    let b = off(sim_base, 0x8f_317c);
    sim_base != 0 && u32_at(m, a) is Some ==> {
        &&& u32_at(n, a) == Some(0x41a0_0000u32)
        &&& u32_at(m, b) is Some ==> u32_at(n, b) == Some(0xc1a0_0000u32)
    }
}

proof fn lemma_turn_rate_taken(s: Possess, m: Bytes, l: Links, hook: SeedHook, h: u32)
    requires
        separate(fields(m, l, hook, h)),
        rooted(m, l, hook, h),
        restorable(s, m, l, hook, h),
    ensures
        turns_freely(m, bound(m, l, 0, hook, h).m, l.sim_base),
{
    let n = stages(m, l, hook, h);
    let f = fields(m, l, hook, h);
    let a = off(l.sim_base, TURN_CLAMP_POS_RVA);
    let b = off(l.sim_base, TURN_CLAMP_NEG_RVA);
    let w = field(f, 6).union(later(f, 4));
    lemma_stage_frames(m, l, hook, h);
    lemma_tails(m, l, hook, h);
    lemma_chain(n[3], n[4], n[7], field(f, 6), later(f, 4));
    if l.sim_base != 0 && u32_at(m, a) is Some {
        lemma_chain(m, n[0], n[1], field(f, 0), field(f, 1));
        let w2 = field(f, 0).union(field(f, 1)).union(field(f, 3));
        lemma_chain(m, n[1], n[2], field(f, 0).union(field(f, 1)), field(f, 3));
        lemma_readable(m, n[2], w2, a);
        lemma_readable(m, n[2], w2, b);
        let v = crate::ieee::magnitude32(super::CONTROL_TURN_RATE);
        assert(n[3] == clamp_set(n[2], l.sim_base, v));
        let n1 = store32(n[2], a, v);
        lemma_written32(n[2], a, v);
        lemma_write32(n[2], n[2], Set::empty(), a, v);
        lemma_readable(n[2], n1, Set::empty().union(word_at(n[2], a)), b);
        let none = Set::<u64>::empty();
        lemma_write32(n1, n1, none, b, crate::ieee::negated32(v));
        assert forall|x: u64| #[trigger] inside(x, a, 4) implies !none.union(word_at(n1, b)).contains(
            x,
        ) by {
            assert(inside(x, f[4].0, f[4].1));
            lemma_sep(f, 4, 5, x);
        }
        lemma_read32(n1, n[3], none.union(word_at(n1, b)), a);
        assert forall|x: u64| #[trigger] inside(x, a, 4) implies !w.contains(x) by {
            assert(inside(x, f[4].0, f[4].1));
            lemma_sep(f, 4, 6, x);
            lemma_sep(f, 4, 7, x);
            lemma_sep(f, 4, 2, x);
            lemma_sep(f, 4, 8, x);
            lemma_sep(f, 4, 9, x);
        }
        lemma_read32(n[3], n[7], w, a);
        if u32_at(m, b) is Some {
            lemma_written32(n1, b, crate::ieee::negated32(v));
            assert forall|x: u64| #[trigger] inside(x, b, 4) implies !w.contains(x) by {
                assert(inside(x, f[5].0, f[5].1));
                lemma_sep(f, 5, 6, x);
                lemma_sep(f, 5, 7, x);
                lemma_sep(f, 5, 2, x);
                lemma_sep(f, 5, 8, x);
                lemma_sep(f, 5, 9, x);
            }
            lemma_read32(n[3], n[7], w, b);
        }
    }
}

/// A controlled unit turns at up to 20 radians per second either way, from the moment control is
/// taken and after any number of ticks.
pub proof fn law_turn_rate_holds(
    s: Possess,
    t: Possess,
    m: Bytes,
    l: Links,
    hook: SeedHook,
    h: u32,
    ticks: Seq<([u32; 3], u32)>,
)
    requires
        separate(fields(m, l, hook, h)),
        rooted(m, l, hook, h),
        restorable(s, m, l, hook, h),
        still(t, controlling_state(s, h, l.pawn, bound(m, l, 0, hook, h).b)),
    ensures
        turns_freely(
            m,
            ticks_memory(t, bound(m, l, 0, hook, h).m, l.tls, ticks),
            l.sim_base,
        ),
    decreases ticks.len(),
{
    let o = bound(m, l, 0, hook, h);
    if ticks.len() == 0 {
        lemma_turn_rate_taken(s, m, l, hook, h);
    } else {
        let before = ticks_memory(t, o.m, l.tls, ticks.drop_last());
        let (target, moved) = ticks.last();
        let r = tick_memory(t, before, l.tls, target, moved);
        let f = fields(m, l, hook, h);
        law_turn_rate_holds(s, t, m, l, hook, h, ticks.drop_last());
        law_ticks_change_only_fields(s, t, m, l, hook, h, ticks.drop_last());
        law_tick_changes_only_fields(s, t, m, before, l, hook, h, target, moved);
        if l.sim_base != 0 {
            assert forall|x: u64| #[trigger] inside(x, f[4].0, 4) implies !tick_fields(f).contains(
                x,
            ) by {
                lemma_not_ticked(f, 4, x);
            }
            assert forall|x: u64| #[trigger] inside(x, f[5].0, 4) implies !tick_fields(f).contains(
                x,
            ) by {
                lemma_not_ticked(f, 5, x);
            }
            lemma_read32(before, r, tick_fields(f), f[4].0);
            lemma_read32(before, r, tick_fields(f), f[5].0);
        }
    }
}

/// A tick does not write the limits of the turn rate.
proof fn lemma_not_ticked(f: Seq<(u64, int)>, k: int, x: u64)
    requires
        separate(f),
        f.len() == 11,
        k == 4 || k == 5,
        inside(x, f[k].0, f[k].1),
    ensures
        !tick_fields(f).contains(x),
{
    lemma_sep(f, k, 1, x);
    lemma_sep(f, k, 2, x);
    lemma_sep(f, k, 3, x);
    lemma_sep(f, k, 6, x);
    lemma_sep(f, k, 7, x);
    lemma_sep(f, k, 10, x);
}

/// On a tick the streaming anchor, the player's own unit, is taken to the place that was worked out
/// for it, and the distance is kept. Where it cannot be moved the distance is kept as -1, and
/// without an anchor nothing changes.
pub proof fn law_anchor_follows(s: Possess, m: Bytes, tls: u64, target: [u32; 3], moved: u32)
    ensures
        ({
            let (n, d) = held_anchor(s, m, tls, target, moved);
            let a = s.saved_player_handle;
            let place = off(body_of(m, tls, a), 0x44);
            let known = anchor_sources(m, tls, a, s.cur_handle) is Some;
            let landed = store_triple(m, place, target).1;
            &&& a == 0xffff_ffff ==> n == m && d == s.anchor_moved
            &&& a != 0xffff_ffff && !known ==> n == m && d == 0xbf80_0000
            &&& a != 0xffff_ffff && known && !landed ==> d == 0xbf80_0000
            &&& a != 0xffff_ffff && known && landed ==> {
                &&& d == moved
                &&& triple_at(n, place) matches Some(t) && t[0] == target[0] && t[1] == target[1]
                    && t[2] == target[2]
            }
        }),
{
    let place = off(body_of(m, tls, s.saved_player_handle), BODY_POS);
    if store_triple(m, place, target).1 {
        lemma_triple_stands(m, place, target);
    }
}

} // verus!
