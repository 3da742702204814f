//! Choosing a target, and finding the unit behind it.

use vstd::prelude::*;

use super::Possess;
use crate::ieee::{finite32, is_finite32, is_nan32, less32, less64, lt32, lt64, nan32};
use crate::look::Look;
use crate::memory::{Bytes, Memory, off, u32_at};
use crate::offsets::UO_FLAGS;
use crate::simtime::objects::{NO_HANDLE, body_of, full_handle, normalize_to_full_handle, object_body};
use crate::simtime::player::{look_angles, player_look_angles};
use crate::simtime::unit::{body_vitality, vitality};
use crate::simunit::{unit_body, valid_unit};
use crate::text;
use crate::text::mentions;
use crate::ue::fname::{obj_name, object_name};
use crate::ue::object::{element_count, num_elements, object_at, slot_object};
use crate::ue::reflect::{
    MAX_HOPS, TEMPLATE_FLAGS, class_like, class_of, class_ptr, descends, find_class, find_function,
    function_ptr, is_a, table_search,
};

verus! {

pub const COMP_BODY_VIT: u64 = 0x218; // float, in the object component

pub const COMP_SHIELD_VIT: u64 = 0x228; // float

/// Classes and functions that were looked up before, 0 where none was found yet.
#[derive(Clone, Copy)]
pub struct Found {
    pub object_actor: u64,
    pub object_component: u64,
    pub get_location: u64,
    pub get_rotation: u64,
}

impl Found {
    /// Nothing looked up yet.
    pub fn new() -> (r: Found)
        ensures
            r == (Found {
                object_actor: 0,
                object_component: 0,
                get_location: 0,
                get_rotation: 0,
            }),
    {
        Found { object_actor: 0, object_component: 0, get_location: 0, get_rotation: 0 }
    }
}

/// A class by name: the known one, or the first in the object table.
pub open spec fn class_or_search(m: Bytes, base: u64, known: u64, name: Seq<char>) -> Option<u64> {
    if known != 0 {
        Some(known)
    } else {
        table_search(m, base, |o: u64| class_like(m, base, o, name))
    }
}

/// A function of an actor by name: the known one, or the one of its class.
pub open spec fn function_or_search(
    m: Bytes,
    base: u64,
    known: u64,
    actor: u64,
    name: Seq<char>,
) -> Option<u64> {
    if known != 0 {
        Some(known)
    } else {
        match class_ptr(m, actor) {
            None => None,
            Some(c) => function_ptr(m, base, c, name, MAX_HOPS as nat),
        }
    }
}

/// What is known after a search: what was found, or what was known if it faulted.
pub open spec fn remembered(found: Option<u64>, known: u64) -> u64 {
    match found {
        None => known,
        Some(p) => p,
    }
}

/// The class of the actors that stand for objects of the simulation (0 if it does not exist
/// yet). It is looked up once.
pub fn boa_class(f: &mut Found, m: &mut Memory, base: u64) -> (r: Option<u64>)
    ensures
        r == class_or_search(old(m)@, base, old(f).object_actor, "BlamObjectActor"@),
        *final(f) == (Found { object_actor: remembered(r, old(f).object_actor), ..*old(f) }),
        final(m)@ == old(m)@,
{
    if f.object_actor != 0 {
        return Some(f.object_actor);
    }
    let p = find_class(m, base, "BlamObjectActor")?;
    f.object_actor = p;
    Some(p)
}

/// The class of the components of those actors (0 if it does not exist yet). It is looked up
/// once.
pub fn objc_class(f: &mut Found, m: &mut Memory, base: u64) -> (r: Option<u64>)
    ensures
        r == class_or_search(old(m)@, base, old(f).object_component, "BlamObjectComponent"@),
        *final(f) == (Found { object_component: remembered(r, old(f).object_component), ..*old(f) }),
        final(m)@ == old(m)@,
{
    if f.object_component != 0 {
        return Some(f.object_component);
    }
    let p = find_class(m, base, "BlamObjectComponent")?;
    f.object_component = p;
    Some(p)
}

/// The function that hands back an actor's location. All actors share it, so it is looked up
/// once.
pub fn loc_fn(f: &mut Found, m: &mut Memory, base: u64, actor: u64) -> (r: Option<u64>)
    ensures
        r == function_or_search(
            old(m)@,
            base,
            old(f).get_location,
            actor,
            "K2_GetActorLocation"@,
        ),
        *final(f) == (Found { get_location: remembered(r, old(f).get_location), ..*old(f) }),
        final(m)@ == old(m)@,
{
    if f.get_location != 0 {
        return Some(f.get_location);
    }
    let c = class_of(m, actor)?;
    let p = find_function(m, base, c, "K2_GetActorLocation")?;
    f.get_location = p;
    Some(p)
}

/// The function that hands back an actor's rotation, looked up once.
pub fn rot_fn(f: &mut Found, m: &mut Memory, base: u64, actor: u64) -> (r: Option<u64>)
    ensures
        r == function_or_search(
            old(m)@,
            base,
            old(f).get_rotation,
            actor,
            "K2_GetActorRotation"@,
        ),
        *final(f) == (Found { get_rotation: remembered(r, old(f).get_rotation), ..*old(f) }),
        final(m)@ == old(m)@,
{
    if f.get_rotation != 0 {
        return Some(f.get_rotation);
    }
    let c = class_of(m, actor)?;
    let p = find_function(m, base, c, "K2_GetActorRotation")?;
    f.get_rotation = p;
    Some(p)
}

/// Where the camera of a followed target takes its direction from: yaw and pitch in radians.
#[derive(Clone, Copy, PartialEq, Eq, Structural)]
pub enum Facing {
    /// The player's own aim, in the simulation's frame: the yaw is turned round.
    Aim { yaw: u32, pitch: u32 },
    /// The look direction.
    Look { yaw: u32, pitch: u32 },
}

/// The target to follow, and where to look from it.
pub open spec fn followed(s: Possess, m: Bytes, base: u64, tls: u64, look: Look) -> Option<
    (u64, Facing),
> {
    if !s.follow || s.target == 0 || slot_object(m, base, s.target_idx as int) != Some(s.target) {
        None
    } else {
        let by_look = Facing::Look { yaw: look.yaw, pitch: look.pitch };
        Some(
            (
                s.target,
                if s.control {
                    match look_angles(m, tls) {
                        Some((yaw, pitch)) => Facing::Aim { yaw, pitch },
                        None => by_look,
                    }
                } else {
                    by_look
                },
            ),
        )
    }
}

/// The target to follow on this frame, if it is still in its slot of the object table, and the
/// direction of the camera: the player's aim while controlling, else the look direction.
pub fn target_pov(s: &Possess, m: &mut Memory, base: u64, tls: u64, look: &Look) -> (r: Option<
    (u64, Facing),
>)
    ensures
        r == followed(*s, old(m)@, base, tls, *look),
        final(m)@ == old(m)@,
{
    if !s.follow || s.target == 0 {
        return None;
    }
    let o = object_at(m, base, s.target_idx)?;
    if o != s.target {
        return None;
    }
    let by_look = Facing::Look { yaw: look.yaw, pitch: look.pitch };
    let facing = if s.control {
        match player_look_angles(m, tls) {
            Some((yaw, pitch)) => Facing::Aim { yaw, pitch },
            None => by_look,
        }
    } else {
        by_look
    };
    Some((s.target, facing))
}

/// The object is a biped that could be a target: no template, of a class below `boa`, whose name
/// says that it is a biped.
pub open spec fn biped(m: Bytes, base: u64, boa: u64, o: u64) -> Option<bool> {
    match u32_at(m, off(o, UO_FLAGS)) {
        None => None,
        Some(flags) => if flags & TEMPLATE_FLAGS != 0 {
            Some(false)
        } else {
            match class_ptr(m, o) {
                None => None,
                Some(c) => match if boa == 0 {
                    Some(false)
                } else {
                    descends(m, c, boa, MAX_HOPS as nat)
                } {
                    None => None,
                    Some(false) => Some(false),
                    Some(true) => match object_name(m, base, c) {
                        None => None,
                        Some(cn) => Some(mentions(cn, "BipedActor"@)),
                    },
                },
            }
        },
    }
}

/// The bipeds among the slots `i..n`, each with its slot, up to the first fault.
pub open spec fn bipeds_from(m: Bytes, base: u64, boa: u64, i: int, n: int) -> Seq<(i32, u64)>
    decreases n - i,
{
    if i >= n {
        Seq::empty()
    } else {
        match slot_object(m, base, i) {
            None => Seq::empty(),
            Some(0) => bipeds_from(m, base, boa, i + 1, n),
            Some(o) => match biped(m, base, boa, o) {
                None => Seq::empty(),
                Some(false) => bipeds_from(m, base, boa, i + 1, n),
                Some(true) => seq![(i as i32, o)] + bipeds_from(m, base, boa, i + 1, n),
            },
        }
    }
}

fn is_biped(m: &mut Memory, base: u64, boa: u64, o: u64) -> (r: Option<bool>)
    ensures
        r == biped(old(m)@, base, boa, o),
        final(m)@ == old(m)@,
{
    let flags = m.read_u32(o.wrapping_add(UO_FLAGS))?;
    if flags & TEMPLATE_FLAGS != 0 {
        return Some(false);
    }
    let c = class_of(m, o)?;
    if !is_a(m, c, boa)? {
        return Some(false);
    }
    let cn = obj_name(m, base, c)?;
    Some(text::contains(cn.as_str(), "BipedActor"))
}

/// List the bipeds of the object table, each with its slot. The list ends at the first fault.
pub fn list_bipeds(m: &mut Memory, base: u64, boa: u64) -> (r: Vec<(i32, u64)>)
    ensures
        r@ == match element_count(old(m)@, base) {
            None => Seq::empty(),
            Some(n) => bipeds_from(old(m)@, base, boa, 0, n as int),
        },
        final(m)@ == old(m)@,
{
    let mut out: Vec<(i32, u64)> = Vec::new();
    let n = match num_elements(m, base) {
        None => return out,
        Some(n) => n,
    };
    let ghost all = bipeds_from(m@, base, boa, 0, n as int);
    let mut i: i32 = 0;
    assert(out@ + all =~= all);
    while i < n
        invariant
            0 <= i,
            m@ == old(m)@,
            element_count(old(m)@, base) == Some(n),
            all == bipeds_from(old(m)@, base, boa, 0, n as int),
            out@ + bipeds_from(m@, base, boa, i as int, n as int) == all,
        decreases n - i,
    {
        match object_at(m, base, i) {
            None => {
                assert(out@ + Seq::<(i32, u64)>::empty() =~= out@);
                return out;
            },
            Some(o) => if o != 0 {
                match is_biped(m, base, boa, o) {
                    None => {
                        assert(out@ + Seq::<(i32, u64)>::empty() =~= out@);
                        return out;
                    },
                    Some(is) => if is {
                        let ghost prior = out@;
                        let ghost rest = bipeds_from(m@, base, boa, i + 1, n as int);
                        out.push((i, o));
                        assert(prior + (seq![(i, o)] + rest) =~= out@ + rest);
                    },
                }
            },
        }
        i += 1;
    }
    assert(out@ + Seq::<(i32, u64)>::empty() =~= out@);
    out
}

/// A biped as seen from the player or the camera. Numbers are double-precision bit patterns.
#[derive(Clone, Copy)]
pub struct Sighting {
    pub index: i32,
    pub obj: u64,
    pub dead: bool,
    /// Whether its location could be had.
    pub located: bool,
    pub dist: u64,
    /// Cosine of the angle to the aim.
    pub along: u64,
    /// What it is ranked by, the least first: the distance, weighted by the angle where there is
    /// an aim.
    pub score: u64,
}

/// Bit pattern of the double `0.5`.
pub const HALF64: u64 = 0x3fe0_0000_0000_0000;

/// Bit pattern of the double `1.0`.
pub const ONE64: u64 = 0x3ff0_0000_0000_0000;

/// Bit pattern of the greatest finite double.
pub const MAX64: u64 = 0x7fef_ffff_ffff_ffff;

/// The biped can be a target: alive, located, not where the player is, and, with an aim, in
/// front of the camera.
pub open spec fn eligible(x: Sighting, aimed: bool) -> bool {
    !x.dead && x.located && !less64(x.dist, ONE64) && !(aimed && less64(x.along, HALF64))
}

/// The best of the sightings from `i` on: the first eligible one with the least score below
/// that of the best so far.
pub open spec fn best_from(v: Seq<Sighting>, aimed: bool, i: int, best: Option<Sighting>) -> Option<
    Sighting,
>
    decreases v.len() - i,
{
    if i < 0 || i >= v.len() {
        best
    } else {
        let bar = match best {
            None => MAX64,
            Some(b) => b.score,
        };
        if eligible(v[i], aimed) && less64(v[i].score, bar) {
            best_from(v, aimed, i + 1, Some(v[i]))
        } else {
            best_from(v, aimed, i + 1, best)
        }
    }
}

/// The actor of the best sighting, null if there is none, and the state that keeps it as the target.
pub open spec fn picked(s: Possess, best: Option<Sighting>) -> (u64, Possess) {
    match best {
        Some(b) if b.obj != 0 => (b.obj, Possess { target: b.obj, target_idx: b.index, ..s }),
        _ => (0, s),
    }
}

/// Pick the target: of the bipeds in front of the aim, or of all without an aim, the one with
/// the least score. It is kept as the target. Returns its actor, or null if there is none.
pub fn pick_target(s: &mut Possess, seen: &Vec<Sighting>, aimed: bool) -> (r: u64)
    ensures
        (r, *final(s)) == picked(*old(s), best_from(seen@, aimed, 0, None)),
{
    let mut best: Option<Sighting> = None;
    let mut i: usize = 0;
    while i < seen.len()
        invariant
            i <= seen.len(),
            *s == *old(s),
            best_from(seen@, aimed, 0, None) == best_from(seen@, aimed, i as int, best),
        decreases seen.len() - i,
    {
        let x = seen[i];
        let bar = match best {
            None => MAX64,
            Some(b) => b.score,
        };
        if !x.dead && x.located && !lt64(x.dist, ONE64) && !(aimed && lt64(x.along, HALF64))
            && lt64(x.score, bar) {
            best = Some(x);
        }
        i += 1;
    }
    match best {
        None => 0,
        Some(b) => {
            if b.obj != 0 {
                s.target = b.obj;
                s.target_idx = b.index;
            }
            b.obj
        },
    }
}

/// No eligible biped has a lower score than the one that is picked.
pub proof fn law_picked_is_best(v: Seq<Sighting>, aimed: bool, i: int, best: Option<Sighting>, k: int)
    requires
        0 <= i <= k < v.len(),
        best is Some ==> !crate::ieee::nan64((best->0).score),
        eligible(v[k], aimed),
        less64(v[k].score, MAX64),
    ensures
        ({
            let b = best_from(v, aimed, i, best);
            b is Some && !less64(v[k].score, (b->0).score)
        }),
    decreases v.len() - i,
{
    let bar = match best {
        None => MAX64,
        Some(b) => b.score,
    };
    let next = if eligible(v[i], aimed) && less64(v[i].score, bar) {
        Some(v[i])
    } else {
        best
    };
    if i < k {
        law_picked_is_best(v, aimed, i + 1, next, k);
    } else {
        lemma_best_only_improves(v, aimed, i + 1, next);
    }
}

proof fn lemma_best_only_improves(v: Seq<Sighting>, aimed: bool, i: int, best: Option<Sighting>)
    requires
        0 <= i,
        best is Some,
        !crate::ieee::nan64((best->0).score),
    ensures
        ({
            let b = best_from(v, aimed, i, best);
            b is Some && !crate::ieee::nan64((b->0).score) && !less64(
                (best->0).score,
                (b->0).score,
            )
        }),
    decreases v.len() - i,
{
    if i < v.len() {
        if eligible(v[i], aimed) && less64(v[i].score, (best->0).score) {
            lemma_best_only_improves(v, aimed, i + 1, Some(v[i]));
        } else {
            lemma_best_only_improves(v, aimed, i + 1, best);
        }
    }
}

/// What is picked is eligible and one of the sightings.
pub proof fn law_picked_is_eligible(v: Seq<Sighting>, aimed: bool, i: int)
    requires
        0 <= i,
    ensures
        best_from(v, aimed, i, None) matches Some(b) ==> eligible(b, aimed) && v.contains(b),
    decreases v.len() - i,
{
    lemma_best_among(v, aimed, i, None);
}

proof fn lemma_best_among(v: Seq<Sighting>, aimed: bool, i: int, best: Option<Sighting>)
    requires
        0 <= i,
        best matches Some(b) ==> eligible(b, aimed) && v.contains(b),
    ensures
        best_from(v, aimed, i, best) matches Some(b) ==> eligible(b, aimed) && v.contains(b),
    decreases v.len() - i,
{
    if i < v.len() {
        lemma_best_among(v, aimed, i + 1, best);
        if eligible(v[i], aimed) {
            lemma_best_among(v, aimed, i + 1, Some(v[i]));
        }
    }
}

/// With an aim, a living biped whose location is known, at a distance of at least one, at a cosine
/// to the aim of at least a half and with a score below the greatest number, makes a pick: the
/// actor of a biped that was seen, none with a lower score than that one.
pub proof fn law_aim_picks(v: Seq<Sighting>, k: int)
    requires
        0 <= k < v.len(),
        !v[k].dead,
        v[k].located,
        !less64(v[k].dist, 0x3ff0_0000_0000_0000),
        !less64(v[k].along, 0x3fe0_0000_0000_0000),
        less64(v[k].score, 0x7fef_ffff_ffff_ffff),
    ensures
        best_from(v, true, 0, None) matches Some(b) && v.contains(b) && !less64(
            v[k].score,
            b.score,
        ),
{
    law_picked_is_best(v, true, 0, None, k);
    law_picked_is_eligible(v, true, 0);
}

/// Without an aim the angle does not matter: a living biped whose location is known, at a distance
/// of at least one and with a score below the greatest number, makes a pick: the actor of a biped
/// that was seen, none with a lower score than that one.
pub proof fn law_nearest_picks(v: Seq<Sighting>, k: int)
    requires
        0 <= k < v.len(),
        !v[k].dead,
        v[k].located,
        !less64(v[k].dist, 0x3ff0_0000_0000_0000),
        less64(v[k].score, 0x7fef_ffff_ffff_ffff),
    ensures
        best_from(v, false, 0, None) matches Some(b) && v.contains(b) && !less64(
            v[k].score,
            b.score,
        ),
{
    law_picked_is_best(v, false, 0, None, k);
    law_picked_is_eligible(v, false, 0);
}

/// What is picked is alive, its location is known, it is not nearer than one, and with an aim its
/// cosine to the aim is not below a half.
pub proof fn law_pick_is_fit(v: Seq<Sighting>, aimed: bool)
    ensures
        best_from(v, aimed, 0, None) matches Some(b) ==> {
            &&& v.contains(b)
            &&& !b.dead
            &&& b.located
            &&& !less64(b.dist, 0x3ff0_0000_0000_0000)
            &&& aimed ==> !less64(b.along, 0x3fe0_0000_0000_0000)
        },
{
    law_picked_is_eligible(v, aimed, 0);
}

/// Of bipeds with equal scores the one that was seen first is picked.
pub proof fn law_first_of_equals(v: Seq<Sighting>, aimed: bool, k: int)
    requires
        0 <= k < v.len(),
        !v[k].dead,
        v[k].located,
        !less64(v[k].dist, 0x3ff0_0000_0000_0000),
        aimed ==> !less64(v[k].along, 0x3fe0_0000_0000_0000),
        less64(v[k].score, 0x7fef_ffff_ffff_ffff),
        forall|j: int| 0 <= j < k ==> less64(v[k].score, (#[trigger] v[j]).score),
        forall|j: int| k <= j < v.len() ==> !less64((#[trigger] v[j]).score, v[k].score),
    ensures
        best_from(v, aimed, 0, None) == Some(v[k]),
{
    lemma_reaches_first(v, aimed, 0, None, k);
}

proof fn lemma_reaches_first(
    v: Seq<Sighting>,
    aimed: bool,
    i: int,
    best: Option<Sighting>,
    k: int,
)
    requires
        0 <= k < v.len(),
        0 <= i,
        eligible(v[k], aimed),
        less64(v[k].score, MAX64),
        forall|j: int| 0 <= j < k ==> less64(v[k].score, (#[trigger] v[j]).score),
        forall|j: int| k <= j < v.len() ==> !less64((#[trigger] v[j]).score, v[k].score),
        i <= k ==> (best matches Some(b) ==> less64(v[k].score, b.score)),
        i > k ==> best == Some(v[k]),
    ensures
        best_from(v, aimed, i, best) == Some(v[k]),
    decreases v.len() - i,
{
    if i < v.len() {
        let bar = match best {
            None => MAX64,
            Some(b) => b.score,
        };
        let next = if eligible(v[i], aimed) && less64(v[i].score, bar) {
            Some(v[i])
        } else {
            best
        };
        lemma_reaches_first(v, aimed, i + 1, next, k);
    }
}

/// The properties that may hold an object's index in the simulation, in the order in which they
/// are tried.
pub fn index_properties() -> (r: [&'static str; 5])
    ensures
        r[0]@ == "ObjectDatumIndex"@,
        r[1]@ == "BlamObjectIndex"@,
        r[2]@ == "DatumIndex"@,
        r[3]@ == "ObjectIndex"@,
        r[4]@ == "ObjectId"@,
{
    ["ObjectDatumIndex", "BlamObjectIndex", "DatumIndex", "ObjectIndex", "ObjectId"]
}

/// A property offset that can be right.
pub open spec fn offset_plausible(o: i32) -> bool {
    0 <= o < 0x2000
}

/// The unit handle that one property of an object gives.
pub open spec fn handle_at(m: Bytes, tls: u64, obj: u64, offset: Option<i32>) -> Option<u32> {
    match offset {
        None => None,
        Some(o) => if !offset_plausible(o) {
            None
        } else {
            match u32_at(m, off(obj, o as u64)) {
                None => None,
                Some(raw) => if raw == NO_HANDLE {
                    None
                } else {
                    full_handle(m, tls, raw)
                },
            }
        },
    }
}

/// The first unit handle that the properties from `i` on give. A null object has none.
pub open spec fn handle_from(
    m: Bytes,
    tls: u64,
    obj: u64,
    offsets: Seq<Option<i32>>,
    i: int,
) -> Option<u32>
    decreases offsets.len() - i,
{
    if obj == 0 || i < 0 || i >= offsets.len() {
        None
    } else {
        match handle_at(m, tls, obj, offsets[i]) {
            Some(h) => Some(h),
            None => handle_from(m, tls, obj, offsets, i + 1),
        }
    }
}

fn find_handle(m: &mut Memory, tls: u64, obj: u64, offsets: &Vec<Option<i32>>) -> (r: Option<u32>)
    ensures
        r == handle_from(old(m)@, tls, obj, offsets@, 0),
        final(m)@ == old(m)@,
{
    if obj == 0 {
        return None;
    }
    let mut i: usize = 0;
    while i < offsets.len()
        invariant
            i <= offsets.len(),
            obj != 0,
            m@ == old(m)@,
            handle_from(old(m)@, tls, obj, offsets@, 0) == handle_from(
                m@,
                tls,
                obj,
                offsets@,
                i as int,
            ),
        decreases offsets.len() - i,
    {
        if let Some(o) = offsets[i] {
            if 0 <= o && o < 0x2000 {
                if let Some(raw) = m.read_u32(obj.wrapping_add(o as u64)) {
                    if raw != NO_HANDLE {
                        let full = normalize_to_full_handle(m, tls, raw);
                        if full.is_some() {
                            return full;
                        }
                    }
                }
            }
        }
        i += 1;
    }
    None
}

/// The unit handle of an actor by its properties, or by those of its component. The offsets are
/// those of [`index_properties`], `None` where an object has no such property.
pub fn handle_via_reflection(
    m: &mut Memory,
    tls: u64,
    actor: u64,
    actor_offsets: &Vec<Option<i32>>,
    comp: u64,
    comp_offsets: &Vec<Option<i32>>,
) -> (r: Option<u32>)
    ensures
        r == match handle_from(old(m)@, tls, actor, actor_offsets@, 0) {
            Some(h) => Some(h),
            None => handle_from(old(m)@, tls, comp, comp_offsets@, 0),
        },
        final(m)@ == old(m)@,
{
    let first = find_handle(m, tls, actor, actor_offsets);
    if first.is_some() {
        return first;
    }
    find_handle(m, tls, comp, comp_offsets)
}

/// The vitality of a unit and of the component that mirrors it, as bit patterns.
#[derive(Clone, Copy)]
pub struct Vitals {
    pub body: u32,
    pub shield: u32,
    pub comp_body: u32,
    pub comp_shield: u32,
}

/// The vitality in a component: not-a-number from the first fault on.
pub open spec fn component_vitality(m: Bytes, comp: u64) -> (u32, u32) {
    match u32_at(m, off(comp, COMP_BODY_VIT)) {
        None => (0x7fc0_0000, 0x7fc0_0000),
        Some(b) => match u32_at(m, off(comp, COMP_SHIELD_VIT)) {
            None => (b, 0x7fc0_0000),
            Some(s) => (b, s),
        },
    }
}

/// Read what a unit and a component are compared by.
pub fn read_vitals(m: &mut Memory, tls: u64, handle: u32, comp: u64) -> (r: Vitals)
    ensures
        (r.body, r.shield) == vitality(old(m)@, body_of(old(m)@, tls, handle)),
        (r.comp_body, r.comp_shield) == component_vitality(old(m)@, comp),
        final(m)@ == old(m)@,
{
    let u = object_body(m, tls, handle);
    let (body, shield) = body_vitality(m, u);
    let (comp_body, comp_shield) = match m.read_u32(comp.wrapping_add(COMP_BODY_VIT)) {
        None => (0x7fc0_0000, 0x7fc0_0000),
        Some(b) => match m.read_u32(comp.wrapping_add(COMP_SHIELD_VIT)) {
            None => (b, 0x7fc0_0000),
            Some(s) => (b, s),
        },
    };
    Vitals { body, shield, comp_body, comp_shield }
}

/// A unit and a component agree on their vitality.
pub open spec fn vitals_agree(v: Vitals, body_close: bool, shield_close: bool) -> bool {
    finite32(v.body) && finite32(v.comp_body) && body_close && (nan32(v.comp_shield) || (finite32(
        v.shield,
    ) && finite32(v.comp_shield) && shield_close))
}

/// Whether the unit `handle` is the one that the component `comp` mirrors, by their vitality.
/// Without a component there is nothing to compare, which passes; without a valid unit it does
/// not. `body_close` and `shield_close` say whether the vitalities that [`read_vitals`] gives
/// are within 5e-3 of each other.
pub fn fingerprint_agrees(
    m: &mut Memory,
    tls: u64,
    handle: u32,
    comp: u64,
    body_close: bool,
    shield_close: bool,
) -> (r: bool)
    ensures
        ({
            let b = body_of(old(m)@, tls, handle);
            let (body, shield) = vitality(old(m)@, b);
            let (comp_body, comp_shield) = component_vitality(old(m)@, comp);
            r == (unit_body(old(m)@, b) && (comp == 0 || vitals_agree(
                Vitals { body, shield, comp_body, comp_shield },
                body_close,
                shield_close,
            )))
        }),
        final(m)@ == old(m)@,
{
    let b = object_body(m, tls, handle);
    if !valid_unit(m, b) {
        return false;
    }
    if comp == 0 {
        return true;
    }
    let v = read_vitals(m, tls, handle, comp);
    is_finite32(v.body) && is_finite32(v.comp_body) && body_close && (is_nan32(v.comp_shield) || (
    is_finite32(v.shield) && is_finite32(v.comp_shield) && shield_close))
}

/// The nearest of the matches from `i` on whose vitality agrees: handle, distance, position in
/// the list.
pub open spec fn nearest_match(
    v: Seq<Option<(u32, u32, u32)>>,
    agrees: Seq<bool>,
    i: int,
    best: Option<(u32, u32, int)>,
) -> Option<(u32, u32, int)>
    decreases v.len() - i,
{
    if i < 0 || i >= v.len() {
        best
    } else {
        match v[i] {
            Some((h, d, c)) if i < agrees.len() && agrees[i] && (best is None || less32(
                d,
                (best->0).1,
            )) => nearest_match(v, agrees, i + 1, Some((h, d, i))),
            _ => nearest_match(v, agrees, i + 1, best),
        }
    }
}

/// Of the units nearest to the target's place, one for each way its axes may be turned, the
/// nearest whose vitality agrees with the target's: its handle, its distance, and which way it
/// was found. `agrees` says of each what [`fingerprint_agrees`] gives: it is the fingerprint that
/// tells which way the axes are turned.
pub fn handle_via_position(found: &Vec<Option<(u32, u32, u32)>>, agrees: &Vec<bool>) -> (r: Option<
    (u32, u32, usize),
>)
    ensures
        match nearest_match(found@, agrees@, 0, None) {
            None => r is None,
            Some((h, d, k)) => r is Some && (r->0).0 == h && (r->0).1 == d && (r->0).2 == k,
        },
        r matches Some((h, d, k)) ==> {
            &&& k < found.len()
            &&& k < agrees.len()
            &&& agrees@[k as int]
            &&& found@[k as int] matches Some(f) && f.0 == h && f.1 == d
        },
{
    let mut best: Option<(u32, u32, usize)> = None;
    let mut i: usize = 0;
    while i < found.len()
        invariant
            i <= found.len(),
            nearest_match(found@, agrees@, 0, None) == nearest_match(
                found@,
                agrees@,
                i as int,
                match best {
                    None => None,
                    Some((h, d, k)) => Some((h, d, k as int)),
                },
            ),
            best matches Some((h, d, k)) ==> {
                &&& k < found.len()
                &&& k < agrees.len()
                &&& agrees@[k as int]
                &&& found@[k as int] matches Some(f) && f.0 == h && f.1 == d
            },
        decreases found.len() - i,
    {
        if let Some((h, d, _c)) = found[i] {
            let nearer = match best {
                None => true,
                Some((_h, bd, _k)) => lt32(d, bd),
            };
            if i < agrees.len() && agrees[i] && nearer {
                best = Some((h, d, i));
            }
        }
        i += 1;
    }
    best
}

/// Bit pattern of `6.0`.
pub const FAR_MATCH: u32 = 0x40c0_0000;

/// A match by position is good enough: the vitality agrees, and it is under six world units away.
/// A moving target's place lags behind its unit.
pub open spec fn match_accepted(dist: u32, agrees: bool) -> bool {
    agrees && less32(dist, FAR_MATCH)
}

/// Whether a match by position is good enough.
pub fn accept_match(dist: u32, agrees: bool) -> (r: bool)
    ensures
        r == match_accepted(dist, agrees),
{
    agrees && lt32(dist, FAR_MATCH)
}

/// The unit behind a target: the one that its properties name if the vitality agrees, else the
/// one that its position gives, if the vitality agrees there and it is near enough.
pub open spec fn unit_behind(
    reflected: Option<u32>,
    reflected_agrees: bool,
    by_position: Option<(u32, u32)>,
    position_agrees: bool,
) -> Option<u32> {
    if reflected is Some && reflected_agrees {
        reflected
    } else {
        match by_position {
            Some((h, d)) if match_accepted(d, position_agrees) => Some(h),
            _ => None,
        }
    }
}

/// The unit behind a target. `by_position` is the handle and the distance of the nearest match.
pub fn target_unit_handle(
    reflected: Option<u32>,
    reflected_agrees: bool,
    by_position: Option<(u32, u32)>,
    position_agrees: bool,
) -> (r: Option<u32>)
    ensures
        r == unit_behind(reflected, reflected_agrees, by_position, position_agrees),
        r matches Some(h) ==> {
            ||| reflected_agrees && reflected == Some(h)
            ||| position_agrees && by_position is Some && (by_position->0).0 == h
        },
{
    if reflected.is_some() && reflected_agrees {
        return reflected;
    }
    match by_position {
        None => None,
        Some((h, d)) => if accept_match(d, position_agrees) {
            Some(h)
        } else {
            None
        },
    }
}

/// Whether a property is worth a line in a report on a target: it sounds like an index, and its
/// offset can be right.
pub fn diagunit(name: &str, offset: i32) -> (r: bool)
    ensures
        r == ((mentions(name@, "Datum"@) || mentions(name@, "Index"@) || mentions(name@, "Handle"@)
            || mentions(name@, "Id"@) || mentions(name@, "Object"@)) && offset_plausible(offset)),
{
    (text::contains(name, "Datum") || text::contains(name, "Index") || text::contains(
        name,
        "Handle",
    ) || text::contains(name, "Id") || text::contains(name, "Object")) && 0 <= offset && offset
        < 0x2000
}

/// Of the units that were found by place, the one whose vitality agrees with the target's and that
/// is nearest is taken: no other that agrees is nearer.
pub proof fn law_match_is_nearest(v: Seq<Option<(u32, u32, u32)>>, agrees: Seq<bool>, j: int)
    requires
        0 <= j < v.len(),
        j < agrees.len(),
        agrees[j],
        v[j] is Some,
        forall|k: int|
            0 <= k < v.len() ==> (#[trigger] v[k] matches Some(f) ==> !nan32(f.1)),
    ensures
        nearest_match(v, agrees, 0, None) matches Some((h, d, k)) && !less32((v[j]->0).1, d),
{
    lemma_match(v, agrees, 0, None, j);
}

proof fn lemma_match(
    v: Seq<Option<(u32, u32, u32)>>,
    agrees: Seq<bool>,
    i: int,
    best: Option<(u32, u32, int)>,
    j: int,
)
    requires
        0 <= i,
        0 <= j < v.len(),
        j < agrees.len(),
        agrees[j],
        v[j] is Some,
        forall|k: int|
            0 <= k < v.len() ==> (#[trigger] v[k] matches Some(f) ==> !nan32(f.1)),
        best matches Some((h, d, k)) ==> !nan32(d),
        j < i ==> (best matches Some((h, d, k)) && !less32((v[j]->0).1, d)),
    ensures
        nearest_match(v, agrees, i, best) matches Some((h, d, k)) && !less32((v[j]->0).1, d),
    decreases v.len() - i,
{
    if i < v.len() {
        match v[i] {
            Some((h, d, c)) if i < agrees.len() && agrees[i] && (best is None || less32(
                d,
                (best->0).1,
            )) => {
                assert(!nan32(d));
                assert(v[j] matches Some(f) && !nan32(f.1));
                lemma_match(v, agrees, i + 1, Some((h, d, i)), j);
            },
            _ => {
                assert(v[i] matches Some(f) ==> !nan32(f.1));
                lemma_match(v, agrees, i + 1, best, j);
            },
        }
    }
}

/// The unit behind a target: the one that its properties name, where its vitality agrees; else the
/// one at its place, where that agrees and is nearer than 6.
pub proof fn law_unit_behind(
    h: u32,
    by_position: Option<(u32, u32)>,
    agrees: bool,
    position_agrees: bool,
)
    ensures
        agrees ==> unit_behind(Some(h), agrees, by_position, position_agrees) == Some(h),
        !agrees ==> unit_behind(Some(h), agrees, by_position, position_agrees) == unit_behind(
            None,
            agrees,
            by_position,
            position_agrees,
        ),
        unit_behind(None, agrees, by_position, position_agrees) == match by_position {
            Some((p, d)) => if position_agrees && less32(d, 0x40c0_0000) {
                Some(p)
            } else {
                None
            },
            None => None,
        },
{
}

/// The fingerprint of a unit agrees where the body's vitality is a number on both sides and close,
/// and the shield's too unless the target has none.
pub proof fn law_fingerprint(v: Vitals, body_close: bool, shield_close: bool)
    ensures
        !body_close || !finite32(v.body) || !finite32(v.comp_body) ==> !vitals_agree(
            v,
            body_close,
            shield_close,
        ),
        nan32(v.comp_shield) && body_close && finite32(v.body) && finite32(v.comp_body)
            ==> vitals_agree(v, body_close, shield_close),
        !nan32(v.comp_shield) && !shield_close ==> !vitals_agree(v, body_close, shield_close),
        finite32(v.body) && finite32(v.comp_body) && finite32(v.shield) && finite32(v.comp_shield)
            && body_close && shield_close ==> vitals_agree(v, body_close, shield_close),
{
}

/// A target is followed as long as its place in the object table still holds it. While its unit is
/// controlled the camera looks along the unit's aim, where that can be read; otherwise along the
/// look direction.
pub proof fn law_following(s: Possess, m: Bytes, base: u64, tls: u64, look: Look)
    ensures
        !s.follow || s.target == 0 ==> followed(s, m, base, tls, look) is None,
        slot_object(m, base, s.target_idx as int) != Some(s.target) ==> followed(
            s,
            m,
            base,
            tls,
            look,
        ) is None,
        followed(s, m, base, tls, look) matches Some((t, f)) ==> {
            &&& t == s.target
            &&& !s.control ==> f == (Facing::Look { yaw: look.yaw, pitch: look.pitch })
            &&& s.control && look_angles(m, tls) is None ==> f == (Facing::Look {
                yaw: look.yaw,
                pitch: look.pitch,
            })
            &&& s.control ==> (look_angles(m, tls) matches Some((y, p)) ==> f == (Facing::Aim {
                yaw: y,
                pitch: p,
            }))
        },
{
}

/// What is picked is kept: its actor comes back and is the target, with its place in the object
/// table. Without a pick the target stays.
pub proof fn law_pick_is_kept(s: Possess, b: Sighting)
    ensures
        picked(s, None) == (0u64, s),
        b.obj != 0 ==> ({
            let (r, n) = picked(s, Some(b));
            &&& r == b.obj
            &&& n.target == b.obj
            &&& n.target_idx == b.index
            &&& n == (Possess { target: n.target, target_idx: n.target_idx, ..s })
        }),
{
}

/// Slot `k` of the object table holds `o`, a biped.
pub open spec fn biped_in(m: Bytes, base: u64, boa: u64, k: int, o: u64) -> bool {
    o != 0 && slot_object(m, base, k) == Some(o) && biped(m, base, boa, o) == Some(true)
}

/// Every biped that is listed stands in the slot that it is listed with.
pub proof fn law_bipeds_listed(m: Bytes, base: u64, boa: u64, i: int, n: int, k: int)
    requires
        0 <= i,
        n <= i32::MAX,
        0 <= k < bipeds_from(m, base, boa, i, n).len(),
    ensures
        ({
            let (at, o) = bipeds_from(m, base, boa, i, n)[k];
            i <= at < n && biped_in(m, base, boa, at as int, o)
        }),
    decreases n - i,
{
    if i < n {
        if let Some(o) = slot_object(m, base, i) {
            if o != 0 && biped(m, base, boa, o) == Some(true) {
                if k > 0 {
                    law_bipeds_listed(m, base, boa, i + 1, n, k - 1);
                }
            } else {
                law_bipeds_listed(m, base, boa, i + 1, n, k);
            }
        }
    }
}

/// Where the whole object table can be read, no biped of it is left out.
pub proof fn law_no_biped_left_out(m: Bytes, base: u64, boa: u64, i: int, n: int, k: int, o: u64)
    requires
        0 <= i <= k < n <= i32::MAX,
        biped_in(m, base, boa, k, o),
        forall|j: int|
            i <= j < n ==> (#[trigger] slot_object(m, base, j) matches Some(x) && (x == 0 || biped(
                m,
                base,
                boa,
                x,
            ) is Some)),
    ensures
        bipeds_from(m, base, boa, i, n).contains((k as i32, o)),
    decreases n - i,
{
    let all = bipeds_from(m, base, boa, i, n);
    assert(slot_object(m, base, i) is Some);
    let x = slot_object(m, base, i)->0;
    let rest = bipeds_from(m, base, boa, i + 1, n);
    if i == k {
        assert(all[0] == (k as i32, o));
    } else {
        law_no_biped_left_out(m, base, boa, i + 1, n, k, o);
        let p = choose|p: int| 0 <= p < rest.len() && rest[p] == (k as i32, o);
        if x != 0 && biped(m, base, boa, x) == Some(true) {
            assert(all[p + 1] == rest[p]);
        } else {
            assert(all == rest);
        }
    }
}

/// A target's unit handle is the one that the first of its properties to give one gives.
pub proof fn law_first_handle(m: Bytes, tls: u64, obj: u64, offsets: Seq<Option<i32>>, i: int, k: int)
    requires
        obj != 0,
        0 <= i <= k < offsets.len(),
        handle_at(m, tls, obj, offsets[k]) is Some,
        forall|j: int| i <= j < k ==> handle_at(m, tls, obj, #[trigger] offsets[j]) is None,
    ensures
        handle_from(m, tls, obj, offsets, i) == handle_at(m, tls, obj, offsets[k]),
        handle_from(m, tls, 0, offsets, i) is None,
    decreases k - i,
{
    if i < k {
        assert(handle_at(m, tls, obj, offsets[i]) is None);
        law_first_handle(m, tls, obj, offsets, i + 1, k);
    }
}

} // verus!
