//! The watched command file. Whenever it changes, its lines are queued for the console.
//!
//! One command per line; blank lines and lines that start with `#` are left out.

use vstd::prelude::*;

use crate::console;
use crate::console::Lines;
use crate::memory::off;
use crate::text;
use crate::text::{begins, line_list, texts, trimmed};

verus! {

/// Name of the command file.
pub const FILE: &'static str = "huragok_cmds.txt";

/// How many polls there are to one look at the file.
pub const POLL_EVERY: u64 = 30;

/// The state of the watch. A modification time of 0 means that there is no file.
pub struct Watch {
    pub last_mtime: u64,
    pub primed: bool,
    pub tick: u64,
}

impl Watch {
    /// Not watching yet.
    pub fn new() -> (r: Watch)
        ensures
            r == (Watch { last_mtime: 0, primed: false, tick: 0 }),
    {
        Watch { last_mtime: 0, primed: false, tick: 0 }
    }
}

/// Begin to watch, with the file as it is, so that a file left over from before is not run.
pub fn init(w: &mut Watch, mtime: u64)
    ensures
        *final(w) == (Watch { last_mtime: mtime, primed: true, ..*old(w) }),
{
    w.last_mtime = mtime;
    w.primed = true;
}

/// Whether it is time to look at the file: on every 30th poll, once watching.
pub open spec fn looks_on(w: Watch) -> bool {
    w.primed && w.tick % POLL_EVERY == 0
}

/// Whether it is time to look at the file: on every 30th poll, once watching.
pub fn poll(w: &mut Watch) -> (r: bool)
    ensures
        r == looks_on(*old(w)),
        *final(w) == (Watch {
            tick: if old(w).primed {
                off(old(w).tick, 1)
            } else {
                old(w).tick
            },
            ..*old(w)
        }),
{
    if !w.primed {
        return false;
    }
    let t = w.tick;
    w.tick = t.wrapping_add(1);
    t % POLL_EVERY == 0
}

/// The file is there, and not as it was last seen.
pub open spec fn moved(w: Watch, mtime: u64) -> bool {
    mtime != 0 && mtime != w.last_mtime
}

/// Take in the file's modification time. True if the file is to be run.
pub fn changed(w: &mut Watch, mtime: u64) -> (r: bool)
    ensures
        r == moved(*old(w), mtime),
        *final(w) == (Watch {
            last_mtime: if r {
                mtime
            } else {
                old(w).last_mtime
            },
            ..*old(w)
        }),
{
    if mtime != 0 && mtime != w.last_mtime {
        w.last_mtime = mtime;
        true
    } else {
        false
    }
}

/// Take in the file's modification time before the file is run in any case.
pub fn run_now(w: &mut Watch, mtime: u64)
    ensures
        *final(w) == (Watch { last_mtime: mtime, ..*old(w) }),
{
    w.last_mtime = mtime;
}

/// The line is a command: not blank, and no comment.
pub open spec fn is_command(line: Seq<char>) -> bool {
    trimmed(line).len() > 0 && !begins(trimmed(line), "#"@)
}

/// The commands among the lines from `i` on, trimmed.
pub open spec fn commands_from(v: Seq<Seq<char>>, i: int) -> Seq<Seq<char>>
    decreases v.len() - i,
{
    if i < 0 || i >= v.len() {
        Seq::empty()
    } else if is_command(v[i]) {
        seq![trimmed(v[i])] + commands_from(v, i + 1)
    } else {
        commands_from(v, i + 1)
    }
}

/// The commands of a file's text.
pub open spec fn commands(s: Seq<char>) -> Seq<Seq<char>> {
    commands_from(line_list(s), 0)
}

/// Queue the commands of the file's text, in order. Returns how many.
pub fn run(q: &mut Lines, file: &str) -> (r: usize)
    ensures
        final(q)@ == old(q)@ + commands(file@),
        r == commands(file@).len(),
{
    let list = text::lines(file);
    let ghost all = line_list(file@);
    let mut n: usize = 0;
    let mut i: usize = 0;
    while i < list.len()
        invariant
            i <= list.len(),
            n <= i,
            texts(list@) == all,
            old(q)@ + commands_from(all, 0) == q@ + commands_from(all, i as int),
            commands_from(all, 0).len() == n + commands_from(all, i as int).len(),
        decreases list.len() - i,
    {
        assert(all[i as int] == list@[i as int]@);
        let line = text::trim(list[i].as_str());
        if line.as_str().unicode_len() > 0 && !text::starts_with(line.as_str(), "#") {
            let ghost l = line@;
            let ghost before = q@;
            console::submit(q, line);
            assert(before + (seq![l] + commands_from(all, i + 1)) =~= q@ + commands_from(
                all,
                i + 1,
            ));
            n += 1;
        }
        i += 1;
    }
    assert(q@ + Seq::<Seq<char>>::empty() =~= q@);
    n
}

/// A file that has not changed since the watch began is never run, and one that was run is not
/// run again until it changes.
pub proof fn law_stale_file_not_run(w: Watch, mtime: u64)
    ensures
        !moved(Watch { last_mtime: mtime, primed: true, ..w }, mtime),
        moved(w, mtime) ==> !moved(Watch { last_mtime: mtime, ..w }, mtime),
{
}

/// Blank lines and comments change nothing about what a file queues.
pub proof fn law_comments_ignored(v: Seq<Seq<char>>, w: Seq<Seq<char>>, c: Seq<char>)
    requires
        !is_command(c),
    ensures
        commands_from(v.push(c) + w, 0) == commands_from(v + w, 0),
{
    lemma_commands_concat(v.push(c), w, 0);
    lemma_commands_concat(v, w, 0);
    lemma_commands_concat(v, seq![c], 0);
    assert(v.push(c) =~= v + seq![c]);
    assert(commands_from(seq![c], 0) =~= Seq::empty()) by {
        reveal_with_fuel(commands_from, 2);
    }
    assert(commands_from(v, 0) + Seq::<Seq<char>>::empty() =~= commands_from(v, 0));
}

proof fn lemma_commands_concat(a: Seq<Seq<char>>, b: Seq<Seq<char>>, i: int)
    requires
        0 <= i <= a.len(),
    ensures
        commands_from(a + b, i) == commands_from(a, i) + commands_from(b, 0),
    decreases a.len() - i,
{
    if i < a.len() {
        lemma_commands_concat(a, b, i + 1);
        assert((a + b)[i] == a[i]);
        assert(commands_from(a + b, i) =~= commands_from(a, i) + commands_from(b, 0));
    } else {
        lemma_commands_shift(a, b, 0);
        assert(commands_from(a, i) + commands_from(b, 0) =~= commands_from(b, 0));
    }
}

proof fn lemma_commands_shift(a: Seq<Seq<char>>, b: Seq<Seq<char>>, k: int)
    requires
        0 <= k <= b.len(),
    ensures
        commands_from(a + b, a.len() + k) == commands_from(b, k),
    decreases b.len() - k,
{
    if k < b.len() {
        lemma_commands_shift(a, b, k + 1);
        assert((a + b)[a.len() + k] == b[k]);
    }
}

/// Once watching, the file is looked at on the first poll and on every 30th after it.
pub proof fn law_looks_every_thirtieth(w: Watch, k: int)
    requires
        w.primed,
        w.tick + k <= u64::MAX,
        0 <= k,
        w.tick as int % 30 == 0,
    ensures
        looks_on(Watch { tick: (w.tick + k) as u64, ..w }) <==> k % 30 == 0,
        !looks_on(Watch { primed: false, ..w }),
{
}

/// A line is a command unless it is blank or its first character that is not blank is a hash.
pub proof fn law_commands_told(line: Seq<char>)
    ensures
        trimmed(line).len() == 0 ==> !is_command(line),
        trimmed(line).len() > 0 ==> (is_command(line) <==> trimmed(line)[0] != '#'),
{
    reveal_strlit("#");
    let t = trimmed(line);
    if t.len() > 0 {
        if t[0] == '#' {
            assert(t.subrange(0, 1) =~= "#"@);
        } else {
            assert(t.subrange(0, 1)[0] == t[0]);
        }
    }
}

/// Each command is run as it stands in the file without the white space around it, in the order of
/// the file.
pub proof fn law_commands_in_order(v: Seq<Seq<char>>, line: Seq<char>)
    requires
        is_command(line),
    ensures
        commands_from(v.push(line), 0) == commands_from(v, 0).push(trimmed(line)),
{
    lemma_command_last(v, line, 0);
}

proof fn lemma_command_last(v: Seq<Seq<char>>, line: Seq<char>, i: int)
    requires
        is_command(line),
        0 <= i <= v.len(),
    ensures
        commands_from(v.push(line), i) == commands_from(v, i).push(trimmed(line)),
    decreases v.len() - i,
{
    let w = v.push(line);
    if i < v.len() {
        lemma_command_last(v, line, i + 1);
        assert(w[i] == v[i]);
        if is_command(v[i]) {
            assert(seq![trimmed(v[i])] + commands_from(v, i + 1).push(trimmed(line)) =~= (seq![
                trimmed(v[i]),
            ] + commands_from(v, i + 1)).push(trimmed(line)));
        }
    } else {
        assert(w[i] == line);
        assert(commands_from(w, i + 1) =~= Seq::<Seq<char>>::empty());
        assert(seq![trimmed(line)] + Seq::<Seq<char>>::empty() =~= Seq::<Seq<char>>::empty().push(
            trimmed(line),
        ));
    }
}

/// A file runs where it is there and its time is not the one that was last seen.
pub proof fn law_changes_run(w: Watch, mtime: u64)
    ensures
        !moved(w, 0),
        mtime != 0 && mtime != w.last_mtime ==> moved(w, mtime),
        !moved(w, w.last_mtime),
{
}

/// The name of the file that is watched.
pub proof fn law_file_name()
    ensures
        FILE@ == "huragok_cmds.txt"@,
{
}

} // verus!
