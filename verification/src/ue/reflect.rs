//! Class chains, function lookup, and the search for well-known objects.

use vstd::prelude::*;

use super::fname::{name_by_id, name_text, obj_name, object_name};
use super::object::{element_count, num_elements, object_at, slot_object};
use crate::memory::{Bytes, Memory, i32_at, off, u16_at, u32_at, u64_at};
use crate::offsets::{
    FF_NAME, FF_NEXT, FF_OFFSET, RF_ARCHETYPE_OBJECT, RF_BIT30, RF_CLASS_DEFAULT_OBJECT,
    UFN_PARMSSIZE, UF_NEXT, UO_CLASS, UO_FLAGS, UO_OUTER, US_CHILDREN, US_PROPERTIES, US_SUPER,
};
use crate::text;
use crate::text::{begins, mentions};

verus! {

/// How many classes a walk up a class chain looks at.
pub const MAX_HOPS: u32 = 64;

/// How many children of a class a search looks at.
pub const MAX_CHILDREN: u32 = 8192;

/// The object flags of templates, which are never live.
pub const TEMPLATE_FLAGS: u32 = RF_CLASS_DEFAULT_OBJECT | RF_ARCHETYPE_OBJECT | RF_BIT30;

/// The object flags of default objects and archetypes.
pub const DEFAULT_FLAGS: u32 = RF_CLASS_DEFAULT_OBJECT | RF_ARCHETYPE_OBJECT;

/// The class of an object: 0 for a null object.
pub open spec fn class_ptr(m: Bytes, obj: u64) -> Option<u64> {
    if obj == 0 {
        Some(0)
    } else {
        u64_at(m, off(obj, UO_CLASS))
    }
}

/// The superclass of a class: 0 for null.
pub open spec fn super_ptr(m: Bytes, cls: u64) -> Option<u64> {
    if cls == 0 {
        Some(0)
    } else {
        u64_at(m, off(cls, US_SUPER))
    }
}

/// `target` is among the first `hops` classes of the chain that starts at `cls`.
pub open spec fn descends(m: Bytes, cls: u64, target: u64, hops: nat) -> Option<bool>
    decreases hops,
{
    if hops == 0 || cls == 0 {
        Some(false)
    } else if cls == target {
        Some(true)
    } else {
        match super_ptr(m, cls) {
            None => None,
            Some(s) => descends(m, s, target, (hops - 1) as nat),
        }
    }
}

/// One of the first `hops` classes of the chain that starts at `cls` has a name with `want`
/// in it.
pub open spec fn chain_mentions(
    m: Bytes,
    base: u64,
    cls: u64,
    want: Seq<char>,
    hops: nat,
) -> Option<bool>
    decreases hops,
{
    if hops == 0 || cls == 0 {
        Some(false)
    } else {
        match object_name(m, base, cls) {
            None => None,
            Some(name) => if mentions(name, want) {
                Some(true)
            } else {
                match super_ptr(m, cls) {
                    None => None,
                    Some(s) => chain_mentions(m, base, s, want, (hops - 1) as nat),
                }
            },
        }
    }
}

/// The object's class is named `class_name`.
pub open spec fn class_named(m: Bytes, base: u64, obj: u64, class_name: Seq<char>) -> Option<bool> {
    match class_ptr(m, obj) {
        None => None,
        Some(c) => match object_name(m, base, c) {
            None => None,
            Some(name) => Some(name == class_name),
        },
    }
}

/// The object is a function with the name `fname`. The name is looked at only where the class
/// fits.
pub open spec fn function_named(m: Bytes, base: u64, obj: u64, fname: Seq<char>) -> Option<bool> {
    match class_named(m, base, obj, "Function"@) {
        Some(true) => match object_name(m, base, obj) {
            None => None,
            Some(name) => Some(name == fname),
        },
        r => r,
    }
}

/// The first function named `fname` among the first `steps` links of a child list.
pub open spec fn child_function(
    m: Bytes,
    base: u64,
    child: u64,
    fname: Seq<char>,
    steps: nat,
) -> Option<u64>
    decreases steps,
{
    if steps == 0 || child == 0 {
        Some(0)
    } else {
        match function_named(m, base, child, fname) {
            None => None,
            Some(true) => Some(child),
            Some(false) => match u64_at(m, off(child, UF_NEXT)) {
                None => None,
                Some(next) => child_function(m, base, next, fname, (steps - 1) as nat),
            },
        }
    }
}

/// The function named `fname` of the nearest of the first `hops` classes that has one.
pub open spec fn function_ptr(
    m: Bytes,
    base: u64,
    cls: u64,
    fname: Seq<char>,
    hops: nat,
) -> Option<u64>
    decreases hops,
{
    if hops == 0 || cls == 0 {
        Some(0)
    } else {
        match u64_at(m, off(cls, US_CHILDREN)) {
            None => None,
            Some(child) => match child_function(m, base, child, fname, MAX_CHILDREN as nat) {
                None => None,
                Some(f) => if f != 0 {
                    Some(f)
                } else {
                    match super_ptr(m, cls) {
                        None => None,
                        Some(s) => function_ptr(m, base, s, fname, (hops - 1) as nat),
                    }
                },
            },
        }
    }
}

/// The first object of the slots `i..n` that passes `test`: 0 if none does. The first fault,
/// of the table or of the test, ends the search.
pub open spec fn first_object(
    m: Bytes,
    base: u64,
    i: int,
    n: int,
    test: spec_fn(u64) -> Option<bool>,
) -> Option<u64>
    decreases n - i,
{
    if i >= n {
        Some(0)
    } else {
        match slot_object(m, base, i) {
            None => None,
            Some(0) => first_object(m, base, i + 1, n, test),
            Some(o) => match test(o) {
                None => None,
                Some(true) => Some(o),
                Some(false) => first_object(m, base, i + 1, n, test),
            },
        }
    }
}

/// The first object of the whole table that passes `test`.
pub open spec fn table_search(m: Bytes, base: u64, test: spec_fn(u64) -> Option<bool>) -> Option<
    u64,
> {
    match element_count(m, base) {
        None => None,
        Some(n) => first_object(m, base, 0, n as int, test),
    }
}

/// The object is called `name`.
pub open spec fn named(m: Bytes, base: u64, obj: u64, name: Seq<char>) -> Option<bool> {
    match object_name(m, base, obj) {
        None => None,
        Some(n) => Some(n == name),
    }
}

/// The object is a live class (no default object and no archetype) with `want` in its name.
pub open spec fn class_like(m: Bytes, base: u64, obj: u64, want: Seq<char>) -> Option<bool> {
    match class_named(m, base, obj, "Class"@) {
        Some(true) => match (u32_at(m, off(obj, UO_FLAGS)), object_name(m, base, obj)) {
            (Some(flags), Some(name)) => Some(
                flags & DEFAULT_FLAGS == 0 && mentions(name, want),
            ),
            _ => None,
        },
        r => r,
    }
}

/// A name that only templates have.
pub open spec fn template_name(name: Seq<char>) -> bool {
    begins(name, "Default__"@) || mentions(name, "_GEN_VARIABLE"@)
}

/// The object is live (no template by its flags or its name) and a class of its chain has
/// `class_name` in its name.
pub open spec fn live_of_class(m: Bytes, base: u64, obj: u64, class_name: Seq<char>) -> Option<
    bool,
> {
    match u32_at(m, off(obj, UO_FLAGS)) {
        None => None,
        Some(flags) => if flags & TEMPLATE_FLAGS != 0 {
            Some(false)
        } else {
            match class_ptr(m, obj) {
                None => None,
                Some(c) => match chain_mentions(m, base, c, class_name, MAX_HOPS as nat) {
                    Some(true) => match object_name(m, base, obj) {
                        None => None,
                        Some(name) => Some(!template_name(name)),
                    },
                    r => r,
                },
            }
        },
    }
}

/// The first live object with `class_name` in a class name of its chain.
pub open spec fn live_object(m: Bytes, base: u64, class_name: Seq<char>) -> Option<u64> {
    table_search(m, base, |o: u64| live_of_class(m, base, o, class_name))
}

/// The class of an object (0 for null).
pub fn class_of(m: &mut Memory, obj: u64) -> (r: Option<u64>)
    ensures
        r == class_ptr(old(m)@, obj),
        final(m)@ == old(m)@,
{
    if obj == 0 {
        return Some(0);
    }
    m.read_u64(obj.wrapping_add(UO_CLASS))
}

/// The superclass of a class (0 for null).
pub fn super_of(m: &mut Memory, cls: u64) -> (r: Option<u64>)
    ensures
        r == super_ptr(old(m)@, cls),
        final(m)@ == old(m)@,
{
    if cls == 0 {
        return Some(0);
    }
    m.read_u64(cls.wrapping_add(US_SUPER))
}

/// True if `cls` is `target` or descends from it. Nothing descends from null.
pub fn is_a(m: &mut Memory, cls: u64, target: u64) -> (r: Option<bool>)
    ensures
        r == if target == 0 {
            Some(false)
        } else {
            descends(old(m)@, cls, target, MAX_HOPS as nat)
        },
        final(m)@ == old(m)@,
{
    if target == 0 {
        return Some(false);
    }
    let mut at: u64 = cls;
    let mut left: u32 = MAX_HOPS;
    while left > 0
        invariant
            left <= MAX_HOPS,
            target != 0,
            m@ == old(m)@,
            descends(old(m)@, cls, target, MAX_HOPS as nat) == descends(
                old(m)@,
                at,
                target,
                left as nat,
            ),
        decreases left,
    {
        if at == 0 {
            return Some(false);
        }
        if at == target {
            return Some(true);
        }
        at = super_of(m, at)?;
        left -= 1;
    }
    Some(false)
}

/// A class is always a descendant of itself.
pub proof fn law_is_a_reflexive(m: Bytes, cls: u64)
    requires
        cls != 0,
    ensures
        descends(m, cls, cls, MAX_HOPS as nat) == Some(true),
{
}

/// A class is a descendant of whatever its superclass is a descendant of, up to one hop less.
pub proof fn law_is_a_inherits(m: Bytes, cls: u64, parent: u64, target: u64)
    requires
        cls != 0,
        super_ptr(m, cls) == Some(parent),
        descends(m, parent, target, (MAX_HOPS - 1) as nat) == Some(true),
    ensures
        descends(m, cls, target, MAX_HOPS as nat) == Some(true),
{
}

fn is_function_named(m: &mut Memory, base: u64, obj: u64, fname: &str) -> (r: Option<bool>)
    ensures
        r == function_named(old(m)@, base, obj, fname@),
        final(m)@ == old(m)@,
{
    let c = class_of(m, obj)?;
    let cn = obj_name(m, base, c)?;
    if !text::same(cn.as_str(), "Function") {
        return Some(false);
    }
    let name = obj_name(m, base, obj)?;
    Some(text::same(name.as_str(), fname))
}

fn find_in_children(m: &mut Memory, base: u64, first: u64, fname: &str) -> (r: Option<u64>)
    ensures
        r == child_function(old(m)@, base, first, fname@, MAX_CHILDREN as nat),
        final(m)@ == old(m)@,
{
    let mut child: u64 = first;
    let mut left: u32 = MAX_CHILDREN;
    while child != 0 && left > 0
        invariant
            left <= MAX_CHILDREN,
            m@ == old(m)@,
            child_function(old(m)@, base, first, fname@, MAX_CHILDREN as nat) == child_function(
                old(m)@,
                base,
                child,
                fname@,
                left as nat,
            ),
        decreases left,
    {
        if is_function_named(m, base, child, fname)? {
            return Some(child);
        }
        child = m.read_u64(child.wrapping_add(UF_NEXT))?;
        left -= 1;
    }
    Some(0)
}

/// The function named `fname` on `cls` or the nearest superclass that has it (0 if absent).
pub fn find_function(m: &mut Memory, base: u64, cls: u64, fname: &str) -> (r: Option<u64>)
    ensures
        r == function_ptr(old(m)@, base, cls, fname@, MAX_HOPS as nat),
        final(m)@ == old(m)@,
{
    let mut at: u64 = cls;
    let mut left: u32 = MAX_HOPS;
    while at != 0 && left > 0
        invariant
            left <= MAX_HOPS,
            m@ == old(m)@,
            function_ptr(old(m)@, base, cls, fname@, MAX_HOPS as nat) == function_ptr(
                old(m)@,
                base,
                at,
                fname@,
                left as nat,
            ),
        decreases left,
    {
        let child = m.read_u64(at.wrapping_add(US_CHILDREN))?;
        let f = find_in_children(m, base, child, fname)?;
        if f != 0 {
            return Some(f);
        }
        at = super_of(m, at)?;
        left -= 1;
    }
    Some(0)
}

/// True if any class in the chain of `cls` has a name containing `want`.
pub fn class_chain_has(m: &mut Memory, base: u64, cls: u64, want: &str) -> (r: Option<bool>)
    ensures
        r == chain_mentions(old(m)@, base, cls, want@, MAX_HOPS as nat),
        final(m)@ == old(m)@,
{
    let mut at: u64 = cls;
    let mut left: u32 = MAX_HOPS;
    while at != 0 && left > 0
        invariant
            left <= MAX_HOPS,
            m@ == old(m)@,
            chain_mentions(old(m)@, base, cls, want@, MAX_HOPS as nat) == chain_mentions(
                old(m)@,
                base,
                at,
                want@,
                left as nat,
            ),
        decreases left,
    {
        let name = obj_name(m, base, at)?;
        if text::contains(name.as_str(), want) {
            return Some(true);
        }
        at = super_of(m, at)?;
        left -= 1;
    }
    Some(false)
}

/// Find a class default object by its exact name (0 if absent).
pub fn find_cdo(m: &mut Memory, base: u64, default_name: &str) -> (r: Option<u64>)
    ensures
        r == table_search(old(m)@, base, |o: u64| named(old(m)@, base, o, default_name@)),
        final(m)@ == old(m)@,
{
    let n = num_elements(m, base)?;
    let ghost m0 = m@;
    let ghost test = |o: u64| named(m0, base, o, default_name@);
    let mut i: i32 = 0;
    while i < n
        invariant
            0 <= i,
            m@ == m0,
            m0 == old(m)@,
            element_count(m0, base) == Some(n),
            test == (|o: u64| named(m0, base, o, default_name@)),
            first_object(m0, base, 0, n as int, test) == first_object(
                m0,
                base,
                i as int,
                n as int,
                test,
            ),
        decreases n - i,
    {
        let o = object_at(m, base, i)?;
        if o != 0 {
            let name = obj_name(m, base, o)?;
            if text::same(name.as_str(), default_name) {
                return Some(o);
            }
        }
        i += 1;
    }
    Some(0)
}

/// Find a live class, no default object and no archetype, whose name contains `want` (0 if
/// absent).
pub fn find_class(m: &mut Memory, base: u64, want: &str) -> (r: Option<u64>)
    ensures
        r == table_search(old(m)@, base, |o: u64| class_like(old(m)@, base, o, want@)),
        final(m)@ == old(m)@,
{
    let n = num_elements(m, base)?;
    let ghost m0 = m@;
    let ghost test = |o: u64| class_like(m0, base, o, want@);
    let mut i: i32 = 0;
    while i < n
        invariant
            0 <= i,
            m@ == m0,
            m0 == old(m)@,
            element_count(m0, base) == Some(n),
            test == (|o: u64| class_like(m0, base, o, want@)),
            first_object(m0, base, 0, n as int, test) == first_object(
                m0,
                base,
                i as int,
                n as int,
                test,
            ),
        decreases n - i,
    {
        let o = object_at(m, base, i)?;
        if o != 0 {
            let c = class_of(m, o)?;
            let cn = obj_name(m, base, c)?;
            if text::same(cn.as_str(), "Class") {
                let flags = m.read_u32(o.wrapping_add(UO_FLAGS))?;
                let name = obj_name(m, base, o)?;
                if flags & DEFAULT_FLAGS == 0 && text::contains(name.as_str(), want) {
                    return Some(o);
                }
            }
        }
        i += 1;
    }
    Some(0)
}

/// Whether the object is live and of a class like `class_name`.
pub fn is_live_of_class(m: &mut Memory, base: u64, obj: u64, class_name: &str) -> (r: Option<bool>)
    ensures
        r == live_of_class(old(m)@, base, obj, class_name@),
        final(m)@ == old(m)@,
{
    let flags = m.read_u32(obj.wrapping_add(UO_FLAGS))?;
    if flags & TEMPLATE_FLAGS != 0 {
        return Some(false);
    }
    let c = class_of(m, obj)?;
    if !class_chain_has(m, base, c, class_name)? {
        return Some(false);
    }
    let name = obj_name(m, base, obj)?;
    Some(
        !(text::starts_with(name.as_str(), "Default__") || text::contains(
            name.as_str(),
            "_GEN_VARIABLE",
        )),
    )
}

/// Find a live object whose class chain contains a class named like `class_name` (0 until such
/// an object exists).
pub fn find_live_by_class(m: &mut Memory, base: u64, class_name: &str) -> (r: Option<u64>)
    ensures
        r == live_object(old(m)@, base, class_name@),
        final(m)@ == old(m)@,
{
    let n = num_elements(m, base)?;
    let ghost m0 = m@;
    let ghost test = |o: u64| live_of_class(m0, base, o, class_name@);
    let mut i: i32 = 0;
    while i < n
        invariant
            0 <= i,
            m@ == m0,
            m0 == old(m)@,
            element_count(m0, base) == Some(n),
            test == (|o: u64| live_of_class(m0, base, o, class_name@)),
            first_object(m0, base, 0, n as int, test) == first_object(
                m0,
                base,
                i as int,
                n as int,
                test,
            ),
        decreases n - i,
    {
        let o = object_at(m, base, i)?;
        if o != 0 {
            if is_live_of_class(m, base, o, class_name)? {
                return Some(o);
            }
        }
        i += 1;
    }
    Some(0)
}

/// The live player controller (0 until it exists). Instances are matched through their class
/// chain: the class object of that name exists from startup and is not one.
pub fn find_player_controller(m: &mut Memory, base: u64) -> (r: Option<u64>)
    ensures
        r == live_object(old(m)@, base, "MeteoritePlayerController"@),
        final(m)@ == old(m)@,
{
    find_live_by_class(m, base, "MeteoritePlayerController")
}

/// What a search of the table hands back passes the test: it is in the table and the test
/// holds of it.
pub proof fn law_search_sound(
    m: Bytes,
    base: u64,
    i: int,
    n: int,
    test: spec_fn(u64) -> Option<bool>,
    o: u64,
)
    requires
        first_object(m, base, i, n, test) == Some(o),
        o != 0,
    ensures
        test(o) == Some(true),
        exists|k: int| i <= k < n && #[trigger] slot_object(m, base, k) == Some(o),
    decreases n - i,
{
    if slot_object(m, base, i) != Some(o) || test(o) != Some(true) {
        law_search_sound(m, base, i + 1, n, test, o);
    }
}

/// A search of the table comes back empty only if no object in it passes the test.
pub proof fn law_search_complete(
    m: Bytes,
    base: u64,
    i: int,
    n: int,
    test: spec_fn(u64) -> Option<bool>,
    k: int,
    o: u64,
)
    requires
        first_object(m, base, i, n, test) == Some(0u64),
        i <= k < n,
        slot_object(m, base, k) == Some(o),
        o != 0,
    ensures
        test(o) == Some(false),
    decreases n - i,
{
    if i < k {
        law_search_complete(m, base, i + 1, n, test, k, o);
    }
}

/// A function found by [`probe_functions`].
pub struct Found {
    pub owner: String,
    pub name: String,
    pub parms_size: u16,
}

/// The contents of a [`Found`].
pub struct FoundView {
    pub owner: Seq<char>,
    pub name: Seq<char>,
    pub parms_size: u16,
}

impl View for Found {
    type V = FoundView;

    open spec fn view(&self) -> FoundView {
        FoundView { owner: self.owner@, name: self.name@, parms_size: self.parms_size }
    }
}

/// One of `needles` stands in `name`.
pub open spec fn mentions_any(name: Seq<char>, needles: Seq<&str>) -> bool {
    exists|k: int| 0 <= k < needles.len() && mentions(name, #[trigger] needles[k]@)
}

/// What the object at `obj` adds to a probe: nothing unless it is a function with one of
/// `needles` in its name.
pub open spec fn probe_object(m: Bytes, base: u64, obj: u64, needles: Seq<&str>) -> Option<
    Option<FoundView>,
> {
    match class_named(m, base, obj, "Function"@) {
        None => None,
        Some(false) => Some(None),
        Some(true) => match object_name(m, base, obj) {
            None => None,
            Some(name) => if !mentions_any(name, needles) {
                Some(None)
            } else {
                match (u64_at(m, off(obj, UO_OUTER)), u16_at(m, off(obj, UFN_PARMSSIZE))) {
                    (Some(outer), Some(ps)) => match object_name(m, base, outer) {
                        None => None,
                        Some(owner) => Some(
                            Some(FoundView { owner, name, parms_size: ps }),
                        ),
                    },
                    _ => None,
                }
            },
        },
    }
}

/// The matches among the slots `i..n`, at most `room` of them. The flag tells whether the scan
/// got through: a fault ends it with what was found so far.
pub open spec fn probe(
    m: Bytes,
    base: u64,
    i: int,
    n: int,
    needles: Seq<&str>,
    room: nat,
) -> (Seq<FoundView>, bool)
    decreases n - i,
{
    if i >= n || room == 0 {
        (Seq::empty(), true)
    } else {
        match slot_object(m, base, i) {
            None => (Seq::empty(), false),
            Some(0) => probe(m, base, i + 1, n, needles, room),
            Some(o) => match probe_object(m, base, o, needles) {
                None => (Seq::empty(), false),
                Some(None) => probe(m, base, i + 1, n, needles, room),
                Some(Some(f)) => {
                    let rest = probe(m, base, i + 1, n, needles, (room - 1) as nat);
                    (seq![f] + rest.0, rest.1)
                },
            },
        }
    }
}

/// The views of a list of matches.
pub open spec fn found_views(v: Seq<Found>) -> Seq<FoundView> {
    v.map_values(|f: Found| f@)
}

/// How many matches a probe reports.
pub const MAX_PROBED: usize = 81;

fn probe_one(m: &mut Memory, base: u64, obj: u64, needles: &Vec<&str>) -> (r: Option<Option<Found>>)
    ensures
        r is Some == probe_object(old(m)@, base, obj, needles@) is Some,
        r matches Some(f) ==> probe_object(old(m)@, base, obj, needles@) == Some(
            match f {
                Some(f) => Some(f@),
                None => None,
            },
        ),
        final(m)@ == old(m)@,
{
    let c = class_of(m, obj)?;
    let cn = obj_name(m, base, c)?;
    if !text::same(cn.as_str(), "Function") {
        return Some(None);
    }
    let name = obj_name(m, base, obj)?;
    if !text::contains_any(name.as_str(), needles) {
        return Some(None);
    }
    let outer = m.read_u64(obj.wrapping_add(UO_OUTER))?;
    let parms_size = m.read_u16(obj.wrapping_add(UFN_PARMSSIZE))?;
    let owner = obj_name(m, base, outer)?;
    Some(Some(Found { owner, name, parms_size }))
}

/// List the functions whose name contains one of `needles`: owner, name and parameter size.
/// The list stops after 81 matches, or at a fault, which the flag reports as false.
pub fn probe_functions(m: &mut Memory, base: u64, needles: &Vec<&str>) -> (r: (Vec<Found>, bool))
    ensures
        match element_count(old(m)@, base) {
            None => r.0@.len() == 0 && !r.1,
            Some(n) => (found_views(r.0@), r.1) == probe(
                old(m)@,
                base,
                0,
                n as int,
                needles@,
                MAX_PROBED as nat,
            ),
        },
        final(m)@ == old(m)@,
{
    let mut out: Vec<Found> = Vec::new();
    let n = match num_elements(m, base) {
        Some(n) => n,
        None => return (out, false),
    };
    let ghost all = probe(m@, base, 0, n as int, needles@, MAX_PROBED as nat);
    let mut i: i32 = 0;
    assert(found_views(out@) + all.0 =~= all.0);
    while i < n && out.len() < MAX_PROBED
        invariant
            0 <= i,
            m@ == old(m)@,
            element_count(old(m)@, base) == Some(n),
            all == probe(old(m)@, base, 0, n as int, needles@, MAX_PROBED as nat),
            out@.len() <= MAX_PROBED,
            ({
                let rest = probe(
                    m@,
                    base,
                    i as int,
                    n as int,
                    needles@,
                    (MAX_PROBED - out@.len()) as nat,
                );
                all == (found_views(out@) + rest.0, rest.1)
            }),
        decreases n - i,
    {
        match object_at(m, base, i) {
            None => {
                assert(found_views(out@) + Seq::<FoundView>::empty() =~= found_views(out@));
                return (out, false);
            },
            Some(o) => if o != 0 {
                match probe_one(m, base, o, needles) {
                    None => {
                        assert(found_views(out@) + Seq::<FoundView>::empty() =~= found_views(out@));
                        return (out, false);
                    },
                    Some(None) => {},
                    Some(Some(f)) => {
                        let ghost prior = out@;
                        let ghost fv = f@;
                        out.push(f);
                        proof {
                            let rest = probe(
                                m@,
                                base,
                                i + 1,
                                n as int,
                                needles@,
                                (MAX_PROBED - out@.len()) as nat,
                            );
                            assert(found_views(out@) =~= found_views(prior).push(fv));
                            assert(found_views(prior) + (seq![fv] + rest.0) =~= found_views(out@)
                                + rest.0);
                        }
                    },
                }
            },
        }
        i += 1;
    }
    assert(found_views(out@) + Seq::<FoundView>::empty() =~= found_views(out@));
    (out, true)
}

/// A list of properties, each with its name and its offset in an object.
pub type Properties = Seq<(Seq<char>, i32)>;

/// The contents of a list of properties.
pub open spec fn property_views(v: Seq<(String, i32)>) -> Properties {
    v.map_values(|p: (String, i32)| (p.0@, p.1))
}

/// `a`, and behind it the list `b`, if there is one.
pub open spec fn joined(a: Properties, b: Option<Properties>) -> Option<Properties> {
    match b {
        None => None,
        Some(b) => Some(a + b),
    }
}

/// The first `left` properties in the chain that starts at `f` (`None` on a fault).
pub open spec fn properties_from(m: Bytes, base: u64, f: u64, left: nat) -> Option<Properties>
    decreases left,
{
    if left == 0 || f == 0 {
        Some(Seq::empty())
    } else {
        match (u32_at(m, off(f, FF_NAME)), i32_at(m, off(f, FF_OFFSET))) {
            (Some(id), Some(offset)) => match (
                name_text(m, base, id),
                u64_at(m, off(f, FF_NEXT)),
            ) {
                (Some(name), Some(next)) => joined(
                    seq![(name, offset)],
                    properties_from(m, base, next, (left - 1) as nat),
                ),
                _ => None,
            },
            _ => None,
        }
    }
}

/// The properties of the first `hops` classes of the chain that starts at `cls`, those of a class
/// before those of the classes above it (`None` on a fault).
pub open spec fn properties_up(m: Bytes, base: u64, cls: u64, hops: nat) -> Option<Properties>
    decreases hops,
{
    if hops == 0 || cls == 0 {
        Some(Seq::empty())
    } else {
        match u64_at(m, off(cls, US_PROPERTIES)) {
            None => None,
            Some(f) => match properties_from(m, base, f, MAX_CHILDREN as nat) {
                None => None,
                Some(own) => match super_ptr(m, cls) {
                    None => None,
                    Some(c) => joined(own, properties_up(m, base, c, (hops - 1) as nat)),
                },
            },
        }
    }
}

fn own_properties(m: &mut Memory, base: u64, first: u64, out: &mut Vec<(String, i32)>) -> (r: bool)
    ensures
        r == properties_from(old(m)@, base, first, MAX_CHILDREN as nat) is Some,
        r ==> joined(
            property_views(old(out)@),
            properties_from(old(m)@, base, first, MAX_CHILDREN as nat),
        ) == Some(property_views(final(out)@)),
        final(m)@ == old(m)@,
{
    let mut f: u64 = first;
    let mut left: u32 = MAX_CHILDREN;
    let ghost before = property_views(out@);
    let ghost all = properties_from(m@, base, first, MAX_CHILDREN as nat);
    while f != 0 && left > 0
        invariant
            left <= MAX_CHILDREN,
            m@ == old(m)@,
            before == property_views(old(out)@),
            all == properties_from(old(m)@, base, first, MAX_CHILDREN as nat),
            joined(before, all) == joined(
                property_views(out@),
                properties_from(m@, base, f, left as nat),
            ),
        decreases left,
    {
        let ghost rest = properties_from(m@, base, f, left as nat);
        let id = m.read_u32(f.wrapping_add(FF_NAME));
        let offset = m.read_i32(f.wrapping_add(FF_OFFSET));
        let (id, offset) = match (id, offset) {
            (Some(id), Some(offset)) => (id, offset),
            _ => {
                assert(joined(before, all) is None);
                return false;
            },
        };
        let name = name_by_id(m, base, id);
        let next = m.read_u64(f.wrapping_add(FF_NEXT));
        match (name, next) {
            (Some(name), Some(next)) => {
                let ghost prior = property_views(out@);
                let ghost tail = properties_from(m@, base, next, (left - 1) as nat);
                let ghost p = (name@, offset);
                out.push((name, offset));
                proof {
                    assert(property_views(out@) =~= prior.push(p));
                    if let Some(t) = tail {
                        assert(prior + (seq![p] + t) =~= property_views(out@) + t);
                    }
                }
                f = next;
            },
            _ => {
                assert(joined(before, all) is None);
                return false;
            },
        }
        left -= 1;
    }
    assert(property_views(out@) + Seq::<(Seq<char>, i32)>::empty() =~= property_views(out@));
    true
}

/// The properties of a class and of those above it, each with its offset in an object (`None` on
/// a fault).
pub fn list_properties(m: &mut Memory, base: u64, class: u64) -> (r: Option<Vec<(String, i32)>>)
    ensures
        match properties_up(old(m)@, base, class, MAX_HOPS as nat) {
            None => r is None,
            Some(v) => r is Some && property_views((r->0)@) == v,
        },
        final(m)@ == old(m)@,
{
    let mut out: Vec<(String, i32)> = Vec::new();
    let mut c: u64 = class;
    let mut left: u32 = MAX_HOPS;
    let ghost all = properties_up(m@, base, class, MAX_HOPS as nat);
    proof {
        assert(property_views(out@) =~= Seq::empty());
        if let Some(v) = all {
            assert(Seq::<(Seq<char>, i32)>::empty() + v =~= v);
        }
    }
    while c != 0 && left > 0
        invariant
            left <= MAX_HOPS,
            m@ == old(m)@,
            all == properties_up(old(m)@, base, class, MAX_HOPS as nat),
            all == joined(property_views(out@), properties_up(m@, base, c, left as nat)),
        decreases left,
    {
        let ghost prior = property_views(out@);
        let f = m.read_u64(c.wrapping_add(US_PROPERTIES))?;
        if !own_properties(m, base, f, &mut out) {
            return None;
        }
        let s = super_of(m, c)?;
        proof {
            let own = properties_from(m@, base, f, MAX_CHILDREN as nat)->0;
            if let Some(t) = properties_up(m@, base, s, (left - 1) as nat) {
                assert(prior + (own + t) =~= (prior + own) + t);
            }
        }
        c = s;
        left -= 1;
    }
    assert(property_views(out@) + Seq::<(Seq<char>, i32)>::empty() =~= property_views(out@));
    Some(out)
}

/// The offset of the first property from `i` on that is called `name`.
pub open spec fn offset_from(v: Properties, name: Seq<char>, i: int) -> Option<i32>
    decreases v.len() - i,
{
    if i < 0 || i >= v.len() {
        None
    } else if v[i].0 == name {
        Some(v[i].1)
    } else {
        offset_from(v, name, i + 1)
    }
}

/// The offset of the property `name` in objects of a class: the class's own goes before one of
/// the classes above it. `None` if there is none, or on a fault.
pub fn property_offset(m: &mut Memory, base: u64, class: u64, name: &str) -> (r: Option<i32>)
    ensures
        r == match properties_up(old(m)@, base, class, MAX_HOPS as nat) {
            None => None,
            Some(v) => offset_from(v, name@, 0),
        },
        final(m)@ == old(m)@,
{
    let list = list_properties(m, base, class)?;
    let ghost v = property_views(list@);
    let mut i: usize = 0;
    while i < list.len()
        invariant
            i <= list.len(),
            m@ == old(m)@,
            properties_up(old(m)@, base, class, MAX_HOPS as nat) == Some(v),
            v == property_views(list@),
            offset_from(v, name@, 0) == offset_from(v, name@, i as int),
        decreases list.len() - i,
    {
        assert(v[i as int] == (list@[i as int].0@, list@[i as int].1));
        if text::same(list[i].0.as_str(), name) {
            return Some(list[i].1);
        }
        i += 1;
    }
    None
}

/// A function that is found has the name that was asked for, and is a function.
pub proof fn law_function_found(m: Bytes, base: u64, cls: u64, fname: Seq<char>, hops: nat)
    ensures
        function_ptr(m, base, cls, fname, hops) matches Some(f) ==> f == 0 || function_named(
            m,
            base,
            f,
            fname,
        ) == Some(true),
    decreases hops,
{
    if hops > 0 && cls != 0 {
        if let Some(child) = u64_at(m, off(cls, US_CHILDREN)) {
            lemma_child_found(m, base, child, fname, MAX_CHILDREN as nat);
        }
        if let Some(s) = super_ptr(m, cls) {
            law_function_found(m, base, s, fname, (hops - 1) as nat);
        }
    }
}

proof fn lemma_child_found(m: Bytes, base: u64, child: u64, fname: Seq<char>, steps: nat)
    ensures
        child_function(m, base, child, fname, steps) matches Some(f) ==> f == 0 || function_named(
            m,
            base,
            f,
            fname,
        ) == Some(true),
    decreases steps,
{
    if steps > 0 && child != 0 {
        if let Some(next) = u64_at(m, off(child, UF_NEXT)) {
            lemma_child_found(m, base, next, fname, (steps - 1) as nat);
        }
    }
}

/// A class's own function hides one of the same name further up, and what it does not have itself
/// it has from above.
pub proof fn law_function_inherited(m: Bytes, base: u64, cls: u64, fname: Seq<char>, child: u64, up: u64)
    requires
        cls != 0,
        u64_at(m, off(cls, 0x48)) == Some(child),
        u64_at(m, off(cls, 0x40)) == Some(up),
    ensures
        child_function(m, base, child, fname, 8192) matches Some(f) ==> function_ptr(
            m,
            base,
            cls,
            fname,
            64,
        ) == if f != 0 {
            Some(f)
        } else {
            function_ptr(m, base, up, fname, 63)
        },
{
}

/// A live object is no template: neither its flags nor its name say so, and a class in its line has
/// the name that was asked for in its own.
pub proof fn law_live_is_no_template(m: Bytes, base: u64, obj: u64, want: Seq<char>)
    requires
        live_of_class(m, base, obj, want) == Some(true),
    ensures
        u32_at(m, off(obj, 0x08)) matches Some(flags) && flags & (0x10u32 | 0x20u32 | 0x4000_0000u32) == 0,
        object_name(m, base, obj) matches Some(n) && !begins(n, "Default__"@) && !mentions(
            n,
            "_GEN_VARIABLE"@,
        ),
{
}

/// The offset of a property is that of the first with the name.
pub proof fn law_first_property(v: Properties, name: Seq<char>, k: int)
    requires
        0 <= k < v.len(),
        v[k].0 == name,
        forall|j: int| 0 <= j < k ==> (#[trigger] v[j]).0 != name,
    ensures
        offset_from(v, name, 0) == Some(v[k].1),
{
    lemma_first_property(v, name, k, 0);
}

proof fn lemma_first_property(v: Properties, name: Seq<char>, k: int, i: int)
    requires
        0 <= i <= k < v.len(),
        v[k].0 == name,
        forall|j: int| 0 <= j < k ==> (#[trigger] v[j]).0 != name,
    ensures
        offset_from(v, name, i) == Some(v[k].1),
    decreases k - i,
{
    if i < k {
        lemma_first_property(v, name, k, i + 1);
    }
}

} // verus!
