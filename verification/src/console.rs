//! The command lines that wait to be run, typed into the console or written into the command
//! file.

use vstd::prelude::*;

use crate::text;
use crate::text::{begins, blank, lemma_trimmed_ends, line_list, texts, trimmed, utf8_lossy};

verus! {

/// The waiting lines, oldest first.
pub struct Lines {
    pub items: Vec<String>,
}

impl View for Lines {
    type V = Seq<Seq<char>>;

    open spec fn view(&self) -> Seq<Seq<char>> {
        texts(self.items@)
    }
}

impl Lines {
    /// No line waiting.
    pub fn new() -> (r: Lines)
        ensures
            r@ == Seq::<Seq<char>>::empty(),
    {
        let r = Lines { items: Vec::new() };
        assert(r@ =~= Seq::<Seq<char>>::empty());
        r
    }
}

/// Take all waiting lines, oldest first.
pub fn take_all(q: &mut Lines) -> (r: Vec<String>)
    ensures
        texts(r@) == old(q)@,
        final(q)@ == Seq::<Seq<char>>::empty(),
{
    let mut out: Vec<String> = Vec::new();
    out.append(&mut q.items);
    assert(q@ =~= Seq::<Seq<char>>::empty());
    out
}

/// Add a line at the end.
pub fn submit(q: &mut Lines, line: String)
    ensures
        final(q)@ == old(q)@.push(line@),
{
    let ghost before = q.items@;
    let ghost l = line@;
    q.items.push(line);
    assert(q@ =~= texts(before).push(l));
}

/// The lines of `v` from `i` on, without the white space at their ends, and without those that
/// are then empty.
pub open spec fn solid_from(v: Seq<Seq<char>>, i: int) -> Seq<Seq<char>>
    decreases v.len() - i,
{
    if i < 0 || i >= v.len() {
        Seq::empty()
    } else if trimmed(v[i]).len() == 0 {
        solid_from(v, i + 1)
    } else {
        seq![trimmed(v[i])] + solid_from(v, i + 1)
    }
}

/// Queue a line without the white space at its ends, unless it is then empty. Returns whether it
/// was queued.
pub fn submit_trimmed(q: &mut Lines, line: &str) -> (r: bool)
    ensures
        r == (trimmed(line@).len() > 0),
        final(q)@ == if r {
            old(q)@.push(trimmed(line@))
        } else {
            old(q)@
        },
{
    let s = text::trim(line);
    if s.as_str().unicode_len() > 0 {
        submit(q, s);
        return true;
    }
    false
}

/// Queue the lines of a text: each trimmed, empty ones left out. Returns how many.
pub fn submit_lines(q: &mut Lines, typed: &str) -> (r: usize)
    ensures
        final(q)@ == old(q)@ + solid_from(line_list(typed@), 0),
        r == solid_from(line_list(typed@), 0).len(),
{
    let list = text::lines(typed);
    let ghost all = line_list(typed@);
    let mut n: usize = 0;
    let mut i: usize = 0;
    assert(solid_from(all, 0).len() <= all.len()) by {
        lemma_solid_len(all, 0);
    }
    assert(all.len() == list@.len());
    while i < list.len()
        invariant
            i <= list.len(),
            n <= i,
            texts(list@) == all,
            old(q)@ + solid_from(all, 0) == q@ + solid_from(all, i as int),
            solid_from(all, 0).len() == n + solid_from(all, i as int).len(),
        decreases list.len() - i,
    {
        assert(all[i as int] == list@[i as int]@);
        let ghost before = q@;
        if submit_trimmed(q, list[i].as_str()) {
            let ghost l = trimmed(all[i as int]);
            assert(before + (seq![l] + solid_from(all, i + 1)) =~= q@ + solid_from(all, i + 1));
            n += 1;
        }
        i += 1;
    }
    assert(q@ + Seq::<Seq<char>>::empty() =~= q@);
    n
}

/// Queue the lines of what was typed: decoded, each trimmed, empty ones left out. Returns how
/// many.
pub fn reader(q: &mut Lines, typed: &Vec<u8>) -> (r: usize)
    ensures
        final(q)@ == old(q)@ + solid_from(line_list(utf8_lossy(typed@)), 0),
        r == solid_from(line_list(utf8_lossy(typed@)), 0).len(),
{
    let decoded = text::from_utf8(typed);
    submit_lines(q, decoded.as_str())
}

/// What a command line asks for.
#[derive(Clone, Copy, Debug, PartialEq, Eq, Structural)]
pub enum Builtin {
    /// Write the roster of live actors.
    Dump,
    /// Take over a unit.
    Control,
    /// Watch a unit.
    Watch,
    /// Release the unit.
    Release,
    /// Report on the aimed unit.
    DiagUnit,
    /// Report on the controlled unit's weapon.
    DiagWeapon,
    /// Run the command file.
    Script,
    /// Set the view.
    View,
    /// None of these: the line is the engine's.
    Engine,
}

/// What the line asks for.
pub open spec fn builtin_of(line: Seq<char>) -> Builtin {
    if line == "huragok dump"@ {
        Builtin::Dump
    } else if line == "huragok control"@ {
        Builtin::Control
    } else if line == "huragok possess"@ {
        Builtin::Watch
    } else if line == "huragok release"@ {
        Builtin::Release
    } else if line == "huragok diagunit"@ {
        Builtin::DiagUnit
    } else if line == "huragok diagweapon"@ {
        Builtin::DiagWeapon
    } else if line == "huragok script"@ {
        Builtin::Script
    } else if begins(line, "huragok view "@) {
        Builtin::View
    } else {
        Builtin::Engine
    }
}

/// Tell what a command line asks for, with the name of the view where it asks for one.
pub fn builtin(line: &str) -> (r: (Builtin, String))
    ensures
        r.0 == builtin_of(line@),
        r.1@ == if r.0 == Builtin::View {
            trimmed(line@.skip("huragok view "@.len() as int))
        } else {
            Seq::empty()
        },
{
    let kind = if text::same(line, "huragok dump") {
        Builtin::Dump
    } else if text::same(line, "huragok control") {
        Builtin::Control
    } else if text::same(line, "huragok possess") {
        Builtin::Watch
    } else if text::same(line, "huragok release") {
        Builtin::Release
    } else if text::same(line, "huragok diagunit") {
        Builtin::DiagUnit
    } else if text::same(line, "huragok diagweapon") {
        Builtin::DiagWeapon
    } else if text::same(line, "huragok script") {
        Builtin::Script
    } else if text::starts_with(line, "huragok view ") {
        let v = text::chars_of(line);
        let n = text::chars_of("huragok view ").len();
        let rest = text::string_of(&v, n, v.len());
        assert(rest@ =~= line@.skip(n as int));
        return (Builtin::View, text::trim(rest.as_str()));
    } else {
        Builtin::Engine
    };
    (kind, String::new())
}

proof fn lemma_solid_len(v: Seq<Seq<char>>, i: int)
    requires
        0 <= i <= v.len(),
    ensures
        solid_from(v, i).len() <= v.len() - i,
    decreases v.len() - i,
{
    if i < v.len() {
        lemma_solid_len(v, i + 1);
    }
}

/// No queued line is empty or has white space at either end, and each is one of the lines.
pub proof fn law_lines_are_solid(v: Seq<Seq<char>>, i: int, k: int)
    requires
        0 <= i,
        0 <= k < solid_from(v, i).len(),
    ensures
        solid_from(v, i)[k].len() > 0,
        !blank(solid_from(v, i)[k][0]),
        !blank(solid_from(v, i)[k].last()),
        exists|j: int| i <= j < v.len() && solid_from(v, i)[k] == trimmed(#[trigger] v[j]),
    decreases v.len() - i,
{
    if i < v.len() {
        if trimmed(v[i]).len() == 0 {
            law_lines_are_solid(v, i + 1, k);
        } else if k > 0 {
            law_lines_are_solid(v, i + 1, k - 1);
        } else {
            assert(solid_from(v, i)[0] == trimmed(v[i]));
            lemma_trimmed_ends(v[i]);
        }
    }
}

/// The lines that the library answers itself, each by its name. A line that begins with the view's
/// name sets the view, whatever comes behind; any other line is the engine's.
pub proof fn law_builtins(line: Seq<char>)
    ensures
        builtin_of("huragok dump"@) == Builtin::Dump,
        builtin_of("huragok control"@) == Builtin::Control,
        builtin_of("huragok possess"@) == Builtin::Watch,
        builtin_of("huragok release"@) == Builtin::Release,
        builtin_of("huragok diagunit"@) == Builtin::DiagUnit,
        builtin_of("huragok diagweapon"@) == Builtin::DiagWeapon,
        builtin_of("huragok script"@) == Builtin::Script,
        builtin_of("huragok view "@ + line) == Builtin::View,
        !begins(line, "huragok "@) ==> builtin_of(line) == Builtin::Engine,
{
    reveal_strlit("huragok dump");
    reveal_strlit("huragok control");
    reveal_strlit("huragok possess");
    reveal_strlit("huragok release");
    reveal_strlit("huragok diagunit");
    reveal_strlit("huragok diagweapon");
    reveal_strlit("huragok script");
    reveal_strlit("huragok view ");
    reveal_strlit("huragok ");
    let v = "huragok view "@ + line;
    assert(v.subrange(0, 13) =~= "huragok view "@);
    assert(v[8] == 'v');
    assert("huragok dump"@[8] == 'd' && "huragok dump"@.len() == 12);
    assert("huragok control"@[8] == 'c' && "huragok control"@.len() == 15);
    assert("huragok possess"@[8] == 'p' && "huragok possess"@.len() == 15);
    assert("huragok release"@[8] == 'r' && "huragok release"@.len() == 15);
    assert("huragok diagunit"@[8] == 'd' && "huragok diagunit"@.len() == 16);
    assert("huragok diagweapon"@[8] == 'd' && "huragok diagweapon"@.len() == 18);
    assert("huragok script"@[8] == 's' && "huragok script"@.len() == 14);
    assert("huragok diagunit"@[12] == 'u' && "huragok dump"@[9] == 'u' && "huragok diagunit"@[9] == 'i');
    assert("huragok dump"@.subrange(0, 8) =~= "huragok "@);
    assert("huragok control"@.subrange(0, 8) =~= "huragok "@);
    assert("huragok possess"@.subrange(0, 8) =~= "huragok "@);
    assert("huragok release"@.subrange(0, 8) =~= "huragok "@);
    assert("huragok diagunit"@.subrange(0, 8) =~= "huragok "@);
    assert("huragok diagweapon"@.subrange(0, 8) =~= "huragok "@);
    assert("huragok script"@.subrange(0, 8) =~= "huragok "@);
    assert(begins(line, "huragok view "@) ==> begins(line, "huragok "@)) by {
        if begins(line, "huragok view "@) {
            assert("huragok view "@.subrange(0, 8) =~= "huragok "@);
            assert(line.subrange(0, 13).subrange(0, 8) =~= line.subrange(0, 8));
        }
    }
}

} // verus!
