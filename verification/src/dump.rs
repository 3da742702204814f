//! The roster of live actors: a tally of their classes, and a report of it.

use vstd::prelude::*;

use crate::memory::{Bytes, Memory, off, u32_at};
use crate::offsets::UO_FLAGS;
use crate::text;
use crate::text::{before, dec, mentions, padded_left};
use crate::ue::fname::{obj_name, object_name};
use crate::ue::object::{element_count, num_elements, object_at, slot_object};
use crate::ue::reflect::{MAX_HOPS, TEMPLATE_FLAGS, class_of, class_ptr, descends, is_a};

verus! {

/// Name of the report's file.
pub const FILE: &'static str = "huragok_refs.txt";

/// How many bipeds the log lists.
pub const LISTED: usize = 20;

/// The kinds of actors, in the order in which they are reported.
#[derive(Clone, Copy, Debug, PartialEq, Eq, Structural)]
pub enum Category {
    Bipeds,
    Vehicles,
    Weapons,
    Equipment,
    Other,
}

/// The name of a category.
pub open spec fn category_text(c: Category) -> Seq<char> {
    match c {
        Category::Bipeds => "bipeds"@,
        Category::Vehicles => "vehicles"@,
        Category::Weapons => "weapons"@,
        Category::Equipment => "equipment"@,
        Category::Other => "other"@,
    }
}

fn category_name(c: Category) -> (r: &'static str)
    ensures
        r@ == category_text(c),
{
    match c {
        Category::Bipeds => "bipeds",
        Category::Vehicles => "vehicles",
        Category::Weapons => "weapons",
        Category::Equipment => "equipment",
        Category::Other => "other",
    }
}

/// The category of a class, by its name.
pub open spec fn category_of(name: Seq<char>) -> Category {
    if mentions(name, "BipedActor"@) || mentions(name, "Biped"@) {
        Category::Bipeds
    } else if mentions(name, "Vehicle"@) {
        Category::Vehicles
    } else if mentions(name, "Weapon"@) {
        Category::Weapons
    } else if mentions(name, "Equipment"@) || mentions(name, "Grenade"@) {
        Category::Equipment
    } else {
        Category::Other
    }
}

/// The category of a class.
pub fn category(name: &str) -> (r: Category)
    ensures
        r == category_of(name@),
{
    if text::contains(name, "BipedActor") || text::contains(name, "Biped") {
        Category::Bipeds
    } else if text::contains(name, "Vehicle") {
        Category::Vehicles
    } else if text::contains(name, "Weapon") {
        Category::Weapons
    } else if text::contains(name, "Equipment") || text::contains(name, "Grenade") {
        Category::Equipment
    } else {
        Category::Other
    }
}

/// A class with the number of its live actors.
pub struct Row {
    pub name: String,
    pub count: u32,
}

/// The contents of a [`Row`].
pub struct RowView {
    pub name: Seq<char>,
    pub count: u32,
}

impl View for Row {
    type V = RowView;

    open spec fn view(&self) -> RowView {
        RowView { name: self.name@, count: self.count }
    }
}

/// The contents of a list of rows.
pub open spec fn rows(v: Seq<Row>) -> Seq<RowView> {
    v.map_values(|r: Row| r@)
}

/// Position of the row for `name` at or after `i`, or the number of rows.
pub open spec fn row_index(t: Seq<RowView>, name: Seq<char>, i: int) -> int
    decreases t.len() - i,
{
    if i < 0 || i >= t.len() {
        t.len() as int
    } else if t[i].name == name {
        i
    } else {
        row_index(t, name, i + 1)
    }
}

/// The tally with one more actor of the class `name`.
pub open spec fn tallied(t: Seq<RowView>, name: Seq<char>) -> Seq<RowView> {
    let i = row_index(t, name, 0);
    if i < t.len() {
        t.update(
            i,
            RowView {
                name,
                count: if t[i].count == u32::MAX {
                    0
                } else {
                    (t[i].count + 1) as u32
                },
            },
        )
    } else {
        t.push(RowView { name, count: 1 })
    }
}

/// The class of a live actor: `Some(0)` if the object is none, `None` on a fault.
pub open spec fn actor_class(m: Bytes, boa: u64, o: u64) -> Option<u64> {
    match u32_at(m, off(o, UO_FLAGS)) {
        None => None,
        Some(flags) => if flags & TEMPLATE_FLAGS != 0 {
            Some(0)
        } else {
            match class_ptr(m, o) {
                None => None,
                Some(c) => match descends(m, c, boa, MAX_HOPS as nat) {
                    None => None,
                    Some(false) => Some(0),
                    Some(true) => Some(c),
                },
            }
        },
    }
}

/// The class names of the live actors in the slots `i..n`, and how many actors there are. A
/// fault ends the list; an actor whose class name faults is counted, but has no name.
pub open spec fn roster(m: Bytes, base: u64, boa: u64, i: int, n: int) -> (Seq<Seq<char>>, nat)
    decreases n - i,
{
    if i >= n {
        (Seq::empty(), 0)
    } else {
        match slot_object(m, base, i) {
            None => (Seq::empty(), 0),
            Some(0) => roster(m, base, boa, i + 1, n),
            Some(o) => match actor_class(m, boa, o) {
                None => (Seq::empty(), 0),
                Some(0) => roster(m, base, boa, i + 1, n),
                Some(c) => match object_name(m, base, c) {
                    None => (Seq::empty(), 1),
                    Some(name) => {
                        let rest = roster(m, base, boa, i + 1, n);
                        (seq![name] + rest.0, rest.1 + 1)
                    },
                },
            },
        }
    }
}

fn find_row(t: &Vec<Row>, name: &str) -> (r: usize)
    ensures
        r == row_index(rows(t@), name@, 0),
        r <= t@.len(),
{
    let mut i: usize = 0;
    while i < t.len()
        invariant
            i <= t.len(),
            row_index(rows(t@), name@, 0) == row_index(rows(t@), name@, i as int),
        decreases t.len() - i,
    {
        assert(rows(t@)[i as int] == t@[i as int]@);
        if text::same(t[i].name.as_str(), name) {
            return i;
        }
        i += 1;
    }
    i
}

fn count_in(t: &mut Vec<Row>, name: String)
    ensures
        rows(final(t)@) == tallied(rows(old(t)@), name@),
{
    let i = find_row(t, name.as_str());
    let ghost before = rows(t@);
    let ghost nv = name@;
    if i < t.len() {
        let n = t[i].count.wrapping_add(1);
        assert(before[i as int] == t@[i as int]@);
        t.set(i, Row { name, count: n });
        assert(rows(t@) =~= tallied(before, nv));
    } else {
        t.push(Row { name, count: 1 });
        assert(rows(t@) =~= tallied(before, nv));
    }
}

fn find_actor_class(m: &mut Memory, boa: u64, o: u64) -> (r: Option<u64>)
    requires
        boa != 0,
    ensures
        r == actor_class(old(m)@, boa, o),
        final(m)@ == old(m)@,
{
    let flags = m.read_u32(o.wrapping_add(UO_FLAGS))?;
    if flags & TEMPLATE_FLAGS != 0 {
        return Some(0);
    }
    let c = class_of(m, o)?;
    if is_a(m, c, boa)? {
        Some(c)
    } else {
        Some(0)
    }
}

/// A finished count: the rows in the order in which the classes were first seen, and how many
/// actors there are.
pub struct Roster {
    pub rows: Vec<Row>,
    pub scanned: u32,
}

/// The tally after the actors of the classes `names` are added to it, one by one.
pub open spec fn tally_onto(t: Seq<RowView>, names: Seq<Seq<char>>) -> Seq<RowView> {
    names.fold_left(t, |x: Seq<RowView>, n: Seq<char>| tallied(x, n))
}

/// Walk the object table and tally the live actors below the class `boa`. `None` while that
/// class does not exist.
pub fn run(m: &mut Memory, base: u64, boa: u64) -> (r: Option<Roster>)
    ensures
        r is None <==> boa == 0,
        r matches Some(x) ==> {
            let found = match element_count(old(m)@, base) {
                None => (Seq::<Seq<char>>::empty(), 0nat),
                Some(n) => roster(old(m)@, base, boa, 0, n as int),
            };
            rows(x.rows@) == tally_onto(Seq::empty(), found.0) && x.scanned == found.1
        },
        final(m)@ == old(m)@,
{
    if boa == 0 {
        return None;
    }
    let mut t: Vec<Row> = Vec::new();
    let mut scanned: u32 = 0;
    assert(rows(t@) =~= Seq::empty());
    let n = match num_elements(m, base) {
        None => {
            proof {
                lemma_tally_empty(Seq::empty());
            }
            return Some(Roster { rows: t, scanned });
        },
        Some(n) => n,
    };
    let ghost all = roster(m@, base, boa, 0, n as int);
    let mut i: i32 = 0;
    while i < n
        invariant
            0 <= i,
            boa != 0,
            scanned <= i,
            m@ == old(m)@,
            element_count(old(m)@, base) == Some(n),
            all == roster(old(m)@, base, boa, 0, n as int),
            ({
                let rest = roster(m@, base, boa, i as int, n as int);
                tally_onto(Seq::empty(), all.0) == tally_onto(rows(t@), rest.0) && all.1 == scanned
                    + rest.1
            }),
        decreases n - i,
    {
        let o = match object_at(m, base, i) {
            None => {
                proof {
                    lemma_tally_empty(rows(t@));
                }
                return Some(Roster { rows: t, scanned });
            },
            Some(o) => o,
        };
        if o != 0 {
            let c = match find_actor_class(m, boa, o) {
                None => {
                    proof {
                        lemma_tally_empty(rows(t@));
                    }
                    return Some(Roster { rows: t, scanned });
                },
                Some(c) => c,
            };
            if c != 0 {
                scanned = scanned + 1;
                match obj_name(m, base, c) {
                    None => {
                        proof {
                            lemma_tally_empty(rows(t@));
                        }
                        return Some(Roster { rows: t, scanned });
                    },
                    Some(name) => {
                        proof {
                            let rest = roster(m@, base, boa, i + 1, n as int);
                            lemma_tally_front(rows(t@), name@, rest.0);
                        }
                        count_in(&mut t, name);
                    },
                }
            }
        }
        i += 1;
    }
    proof {
        lemma_tally_empty(rows(t@));
    }
    Some(Roster { rows: t, scanned })
}

proof fn lemma_tally_empty(t: Seq<RowView>)
    ensures
        tally_onto(t, Seq::empty()) == t,
{
}

proof fn lemma_tally_front(t: Seq<RowView>, name: Seq<char>, rest: Seq<Seq<char>>)
    ensures
        tally_onto(t, seq![name] + rest) == tally_onto(tallied(t, name), rest),
    decreases rest.len(),
{
    let f = |x: Seq<RowView>, n: Seq<char>| tallied(x, n);
    let all = seq![name] + rest;
    if rest.len() == 0 {
        assert(all =~= seq![name]);
        assert(all.drop_last() =~= Seq::empty());
        reveal_with_fuel(Seq::fold_left, 2);
    } else {
        assert(all.drop_last() =~= seq![name] + rest.drop_last());
        assert(all.last() == rest.last());
        lemma_tally_front(t, name, rest.drop_last());
    }
}

/// `a` is reported before `b`: it has more actors, or as many and the earlier name.
pub open spec fn row_before(a: RowView, b: RowView) -> bool {
    a.count > b.count || (a.count == b.count && before(a.name, b.name))
}

/// The place of `r` in an ordered list: behind all rows that it is not reported before.
pub open spec fn inserted(t: Seq<RowView>, r: RowView) -> Seq<RowView>
    decreases t.len(),
{
    if t.len() == 0 {
        seq![r]
    } else if row_before(r, t[0]) {
        seq![r] + t
    } else {
        seq![t[0]] + inserted(t.skip(1), r)
    }
}

/// The rows of a category, in the order in which they are reported.
pub open spec fn ordered(t: Seq<RowView>, c: Category) -> Seq<RowView>
    decreases t.len(),
{
    if t.len() == 0 {
        Seq::empty()
    } else if category_of(t.last().name) == c {
        inserted(ordered(t.drop_last(), c), t.last())
    } else {
        ordered(t.drop_last(), c)
    }
}

fn is_row_before(a: &Row, b: &Row) -> (r: bool)
    ensures
        r == row_before(a@, b@),
{
    a.count > b.count || (a.count == b.count && text::is_before(a.name.as_str(), b.name.as_str()))
}

fn insert_row(t: &mut Vec<Row>, r: Row)
    ensures
        rows(final(t)@) == inserted(rows(old(t)@), r@),
{
    let mut i: usize = 0;
    let ghost before = rows(t@);
    assert(before.skip(0) =~= before);
    assert(before.take(0) + inserted(before, r@) =~= inserted(before, r@));
    while i < t.len() && !is_row_before(&r, &t[i])
        invariant
            i <= t.len(),
            rows(t@) == before,
            inserted(before, r@) == before.take(i as int) + inserted(before.skip(i as int), r@),
        decreases t.len() - i,
    {
        proof {
            let s = before.skip(i as int);
            assert(s[0] == t@[i as int]@);
            assert(s.skip(1) =~= before.skip(i + 1));
            assert(before.take(i as int) + (seq![s[0]] + inserted(s.skip(1), r@)) =~= before.take(
                i + 1,
            ) + inserted(before.skip(i + 1), r@));
        }
        i += 1;
    }
    proof {
        let s = before.skip(i as int);
        if i < t.len() {
            assert(s[0] == t@[i as int]@);
            assert(inserted(s, r@) == seq![r@] + s);
        } else {
            assert(s.len() == 0);
        }
    }
    let ghost rv = r@;
    t.insert(i, r);
    assert(rows(t@) =~= before.insert(i as int, rv));
    assert(before.insert(i as int, rv) =~= before.take(i as int) + inserted(
        before.skip(i as int),
        rv,
    ));
}

/// The rows of a category, most actors first, then by name.
pub fn sort_category(t: &Vec<Row>, c: Category) -> (r: Vec<Row>)
    ensures
        rows(r@) == ordered(rows(t@), c),
{
    let mut out: Vec<Row> = Vec::new();
    let mut i: usize = 0;
    let ghost all = rows(t@);
    assert(all.take(0) =~= Seq::empty());
    assert(rows(out@) =~= Seq::empty());
    while i < t.len()
        invariant
            i <= t.len(),
            all == rows(t@),
            rows(out@) == ordered(all.take(i as int), c),
        decreases t.len() - i,
    {
        proof {
            let p = all.take(i + 1);
            assert(p.drop_last() =~= all.take(i as int));
            assert(p.last() == t@[i as int]@);
        }
        if category(t[i].name.as_str()) == c {
            insert_row(&mut out, Row { name: text::owned(t[i].name.as_str()), count: t[i].count });
        }
        i += 1;
    }
    assert(all.take(t.len() as int) =~= all);
    out
}

/// One line of the report.
pub open spec fn row_line(r: RowView) -> Seq<char> {
    "  "@ + padded_left(dec(r.count as nat), 4) + "  "@ + r.name + "\n"@
}

/// The lines of the rows `0..n`.
pub open spec fn row_lines(t: Seq<RowView>, n: nat) -> Seq<char>
    decreases n,
{
    if n == 0 || n > t.len() {
        Seq::empty()
    } else {
        row_lines(t, (n - 1) as nat) + row_line(t[n - 1])
    }
}

/// The part of the report on one category: nothing where it has no rows.
pub open spec fn category_part(t: Seq<RowView>, c: Category) -> Seq<char> {
    let o = ordered(t, c);
    if o.len() == 0 {
        Seq::empty()
    } else {
        "== "@ + category_text(c) + " ("@ + dec(o.len()) + ") ==\n"@ + row_lines(o, o.len())
            + "\n"@
    }
}

/// The head of the report.
pub open spec fn report_head(t: Seq<RowView>, scanned: u32) -> Seq<char> {
    "# Huragok live actor roster (BlamObjectActor subclasses)\n"@
        + "# Spawned UClass names for the currently loaded mission. These are the\n"@
        + "# closest readable equivalent to mantini character / object-name refs.\n\n"@
        + "total live actors: "@ + dec(scanned as nat) + ", distinct classes: "@ + dec(t.len())
        + "\n\n"@
}

/// The report.
pub open spec fn report_text(t: Seq<RowView>, scanned: u32) -> Seq<char> {
    report_head(t, scanned) + category_part(t, Category::Bipeds) + category_part(
        t,
        Category::Vehicles,
    ) + category_part(t, Category::Weapons) + category_part(t, Category::Equipment)
        + category_part(t, Category::Other)
}

fn push_line(out: &mut String, r: &Row)
    ensures
        final(out)@ == old(out)@ + row_line(r@),
{
    let n = text::decimal(r.count as u64);
    let wide = text::pad_left(n.as_str(), 4);
    out.append("  ");
    out.append(wide.as_str());
    out.append("  ");
    out.append(r.name.as_str());
    out.append("\n");
    assert(out@ =~= old(out)@ + row_line(r@));
}

fn push_category(out: &mut String, t: &Vec<Row>, c: Category)
    ensures
        final(out)@ == old(out)@ + category_part(rows(t@), c),
{
    let list = sort_category(t, c);
    let ghost o = rows(list@);
    let ghost start = out@;
    if list.len() == 0 {
        assert(out@ =~= start + category_part(rows(t@), c));
        return;
    }
    let n = text::decimal(list.len() as u64);
    out.append("== ");
    out.append(category_name(c));
    out.append(" (");
    out.append(n.as_str());
    out.append(") ==\n");
    let ghost head = out@;
    let mut i: usize = 0;
    assert(head + row_lines(o, 0) =~= head);
    while i < list.len()
        invariant
            i <= list.len(),
            o == rows(list@),
            out@ == head + row_lines(o, i as nat),
        decreases list.len() - i,
    {
        assert(o[i as int] == list@[i as int]@);
        push_line(out, &list[i]);
        assert(out@ =~= head + row_lines(o, (i + 1) as nat));
        i += 1;
    }
    out.append("\n");
    assert(out@ =~= start + category_part(rows(t@), c));
}

/// Write the report: the totals, then each category with its classes.
pub fn report(r: &Roster) -> (out: String)
    ensures
        out@ == report_text(rows(r.rows@), r.scanned),
{
    let mut out = String::new();
    let a = text::decimal(r.scanned as u64);
    let b = text::decimal(r.rows.len() as u64);
    out.append("# Huragok live actor roster (BlamObjectActor subclasses)\n");
    out.append("# Spawned UClass names for the currently loaded mission. These are the\n");
    out.append("# closest readable equivalent to mantini character / object-name refs.\n\n");
    out.append("total live actors: ");
    out.append(a.as_str());
    out.append(", distinct classes: ");
    out.append(b.as_str());
    out.append("\n\n");
    assert(out@ =~= report_head(rows(r.rows@), r.scanned));
    push_category(&mut out, &r.rows, Category::Bipeds);
    push_category(&mut out, &r.rows, Category::Vehicles);
    push_category(&mut out, &r.rows, Category::Weapons);
    push_category(&mut out, &r.rows, Category::Equipment);
    push_category(&mut out, &r.rows, Category::Other);
    out
}

/// No class is listed twice.
pub open spec fn distinct(t: Seq<RowView>) -> bool {
    forall|i: int, j: int| 0 <= i < j < t.len() ==> t[i].name != t[j].name
}

/// A tally never lists a class twice, however it grows.
pub proof fn law_tally_distinct(t: Seq<RowView>, name: Seq<char>)
    requires
        distinct(t),
    ensures
        distinct(tallied(t, name)),
{
    lemma_row_index(t, name, 0);
}

proof fn lemma_row_index(t: Seq<RowView>, name: Seq<char>, i: int)
    requires
        0 <= i <= t.len(),
    ensures
        i <= row_index(t, name, i) <= t.len(),
        row_index(t, name, i) < t.len() ==> t[row_index(t, name, i)].name == name,
        forall|k: int| i <= k < row_index(t, name, i) ==> t[k].name != name,
    decreases t.len() - i,
{
    if i < t.len() && t[i].name != name {
        lemma_row_index(t, name, i + 1);
    }
}

/// The number of actors of a class in a tally.
pub open spec fn count_of(t: Seq<RowView>, name: Seq<char>) -> int {
    let i = row_index(t, name, 0);
    if i < t.len() {
        t[i].count as int
    } else {
        0
    }
}

/// One more actor of a class raises the count of that class by one and no other count.
pub proof fn law_tally_counts(t: Seq<RowView>, name: Seq<char>, other: Seq<char>)
    requires
        distinct(t),
        count_of(t, name) < u32::MAX,
    ensures
        count_of(tallied(t, name), name) == count_of(t, name) + 1,
        other != name ==> count_of(tallied(t, name), other) == count_of(t, other),
{
    let u = tallied(t, name);
    law_tally_distinct(t, name);
    lemma_row_index(t, name, 0);
    lemma_row_index(u, name, 0);
    lemma_row_index(t, other, 0);
    lemma_row_index(u, other, 0);
    let i = row_index(t, name, 0);
    let j = row_index(u, name, 0);
    assert(u[i].name == name);
    if j != i {
        if j < i {
            assert(u[j].name != u[i].name);
        } else {
            assert(u[i].name != u[j].name);
        }
    }
    if other != name {
        let a = row_index(t, other, 0);
        let b = row_index(u, other, 0);
        if a < t.len() {
            assert(u[a] == t[a]);
            if a != b {
                if a < b {
                    assert(u[a].name != other);
                } else {
                    assert(u[b].name == other && b < t.len());
                    assert(t[b].name != other);
                }
            }
        } else if b < u.len() {
            assert(u[b].name == other);
            if b < t.len() {
                assert(t[b].name == other || b == i);
            }
        }
    }
}

/// A tally of a list of class names lists each of them once, with the number of times that it
/// stands in the list.
pub proof fn law_tally_exact(names: Seq<Seq<char>>, name: Seq<char>)
    requires
        names.len() < u32::MAX,
    ensures
        distinct(tally_onto(Seq::empty(), names)),
        count_of(tally_onto(Seq::empty(), names), name) == names.to_multiset().count(name),
    decreases names.len(),
{
    broadcast use vstd::seq_lib::group_to_multiset_ensures;
    broadcast use vstd::multiset::group_multiset_axioms;

    if names.len() > 0 {
        let init = names.drop_last();
        law_tally_exact(init, name);
        law_tally_exact(init, names.last());
        let t = tally_onto(Seq::empty(), init);
        assert(names =~= init.push(names.last()));
        assert(init.to_multiset().len() == init.len());
        assert(init.to_multiset().count(names.last()) <= init.to_multiset().len());
        law_tally_distinct(t, names.last());
        law_tally_counts(t, names.last(), name);
    }
}

/// Each row of the list is reported before all rows behind it, unless they are equal.
pub open spec fn in_order(t: Seq<RowView>) -> bool {
    forall|i: int, j: int| 0 <= i < j < t.len() ==> !row_before(t[j], t[i])
}

proof fn lemma_before_order(a: Seq<char>, b: Seq<char>, c: Seq<char>)
    ensures
        !(before(a, b) && before(b, a)),
        before(a, b) && !before(c, b) ==> before(a, c),
    decreases a.len() + b.len() + c.len(),
{
    if a.len() > 0 && b.len() > 0 {
        if c.len() > 0 {
            lemma_before_order(a.skip(1), b.skip(1), c.skip(1));
        } else {
            lemma_before_order(a.skip(1), b.skip(1), c);
        }
    }
}

proof fn lemma_row_order(a: RowView, b: RowView, c: RowView)
    ensures
        !(row_before(a, b) && row_before(b, a)),
        row_before(a, b) && !row_before(c, b) ==> row_before(a, c),
{
    lemma_before_order(a.name, b.name, c.name);
}

proof fn lemma_inserted(t: Seq<RowView>, r: RowView)
    requires
        in_order(t),
    ensures
        in_order(inserted(t, r)),
        inserted(t, r).to_multiset() == t.to_multiset().insert(r),
        inserted(t, r).len() == t.len() + 1,
        forall|k: int|
            0 <= k < inserted(t, r).len() ==> #[trigger] inserted(t, r)[k] == r || t.contains(
                inserted(t, r)[k],
            ),
    decreases t.len(),
{
    broadcast use vstd::seq_lib::group_to_multiset_ensures;

    let u = inserted(t, r);
    if t.len() == 0 {
        assert(t =~= Seq::empty());
        assert(u =~= t.push(r));
    } else if row_before(r, t[0]) {
        assert(u =~= t.insert(0, r));
        assert forall|i: int, j: int| 0 <= i < j < u.len() implies !row_before(u[j], u[i]) by {
            if i == 0 {
                lemma_row_order(r, t[0], t[j - 1]);
                lemma_row_order(r, t[j - 1], r);
            } else {
                assert(u[i] == t[i - 1] && u[j] == t[j - 1]);
            }
        }
        assert forall|k: int| 0 <= k < u.len() implies #[trigger] u[k] == r || t.contains(u[k]) by {
            if k > 0 {
                assert(u[k] == t[k - 1]);
            }
        }
    } else {
        let s = t.skip(1);
        assert forall|i: int, j: int| 0 <= i < j < s.len() implies !row_before(s[j], s[i]) by {
            assert(s[i] == t[i + 1] && s[j] == t[j + 1]);
        }
        lemma_inserted(s, r);
        let v = inserted(s, r);
        assert(u =~= v.insert(0, t[0]));
        assert(t =~= s.insert(0, t[0]));
        assert(u.to_multiset() =~= t.to_multiset().insert(r));
        assert forall|i: int, j: int| 0 <= i < j < u.len() implies !row_before(u[j], u[i]) by {
            if i == 0 {
                let x = v[j - 1];
                assert(u[j] == x);
                if x != r {
                    assert(s.contains(x));
                    let k = choose|k: int| 0 <= k < s.len() && s[k] == x;
                    assert(t[k + 1] == x);
                }
            } else {
                assert(u[i] == v[i - 1] && u[j] == v[j - 1]);
            }
        }
        assert forall|k: int| 0 <= k < u.len() implies #[trigger] u[k] == r || t.contains(u[k]) by {
            if k == 0 {
                assert(t[0] == u[0]);
            } else {
                let x = v[k - 1];
                assert(u[k] == x);
                if x != r {
                    let q = choose|q: int| 0 <= q < s.len() && s[q] == x;
                    assert(t[q + 1] == x);
                }
            }
        }
    }
}

/// The rows of a category.
pub open spec fn of_category(t: Seq<RowView>, c: Category) -> Seq<RowView> {
    t.filter(|r: RowView| category_of(r.name) == c)
}

/// A category is reported in order (most actors first, then by name), complete, and with nothing
/// else in it.
pub proof fn law_report_ordered(t: Seq<RowView>, c: Category)
    ensures
        in_order(ordered(t, c)),
        ordered(t, c).to_multiset() == of_category(t, c).to_multiset(),
    decreases t.len(),
{
    broadcast use vstd::seq_lib::group_to_multiset_ensures;

    reveal(Seq::filter);
    if t.len() > 0 {
        law_report_ordered(t.drop_last(), c);
        lemma_inserted(ordered(t.drop_last(), c), t.last());
    }
}

/// Actors are told by the name of their class: bipeds first, then vehicles, weapons, and equipment
/// with grenades. What holds none of these words is something else.
pub proof fn law_categories(name: Seq<char>)
    ensures
        mentions(name, "Biped"@) || mentions(name, "BipedActor"@) ==> category_of(name)
            == Category::Bipeds,
        !mentions(name, "Biped"@) && !mentions(name, "BipedActor"@) && mentions(name, "Vehicle"@)
            ==> category_of(name) == Category::Vehicles,
        !mentions(name, "Biped"@) && !mentions(name, "BipedActor"@) && !mentions(name, "Vehicle"@)
            && mentions(name, "Weapon"@) ==> category_of(name) == Category::Weapons,
        !mentions(name, "Biped"@) && !mentions(name, "BipedActor"@) && !mentions(name, "Vehicle"@)
            && !mentions(name, "Weapon"@) && (mentions(name, "Equipment"@) || mentions(
            name,
            "Grenade"@,
        )) ==> category_of(name) == Category::Equipment,
        category_of(name) is Other <==> !mentions(name, "Biped"@) && !mentions(name, "BipedActor"@)
            && !mentions(name, "Vehicle"@) && !mentions(name, "Weapon"@) && !mentions(
            name,
            "Equipment"@,
        ) && !mentions(name, "Grenade"@),
        category_text(Category::Bipeds) == "bipeds"@,
        category_text(Category::Vehicles) == "vehicles"@,
        category_text(Category::Weapons) == "weapons"@,
        category_text(Category::Equipment) == "equipment"@,
        category_text(Category::Other) == "other"@,
{
}

/// In the report, what there is more of comes first, and what there is as much of comes in the
/// order of the names.
pub proof fn law_most_first(t: Seq<RowView>, c: Category, i: int, j: int)
    requires
        0 <= i < j < ordered(t, c).len(),
    ensures
        ordered(t, c)[i].count >= ordered(t, c)[j].count,
        ordered(t, c)[i].count == ordered(t, c)[j].count ==> !before(
            ordered(t, c)[j].name,
            ordered(t, c)[i].name,
        ),
{
    law_report_ordered(t, c);
    assert(!row_before(ordered(t, c)[j], ordered(t, c)[i]));
}

/// The report begins with its head, and then has the categories in their order: bipeds, vehicles,
/// weapons, equipment and the rest. A category without rows is left out.
pub proof fn law_report_parts(t: Seq<RowView>, scanned: u32)
    ensures
        report_text(t, scanned) == report_head(t, scanned) + category_part(t, Category::Bipeds)
            + category_part(t, Category::Vehicles) + category_part(t, Category::Weapons)
            + category_part(t, Category::Equipment) + category_part(t, Category::Other),
        ordered(t, Category::Bipeds).len() == 0 ==> category_part(t, Category::Bipeds).len() == 0,
        ordered(t, Category::Vehicles).len() == 0 ==> category_part(t, Category::Vehicles).len()
            == 0,
{
}

/// The name of the file that the roster is written to.
pub proof fn law_file_name()
    ensures
        FILE@ == "huragok_refs.txt"@,
{
}

} // verus!
