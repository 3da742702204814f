//! The log. Every line is `[tag] message`. The console shows it as a coloured bullet with the
//! tag, and collapses a line that repeats; the overlay shows the most recent lines as they are.

use vstd::prelude::*;

use crate::text;
use crate::text::{begins, dec, padded_right, texts, trimmed_start};

verus! {

pub const RESET: &'static str = "\x1b[0m";

pub const ACCENT: &'static str = "\x1b[38;2;215;119;87m";

pub const DIM: &'static str = "\x1b[38;2;128;128;128m";

pub const BOLD: &'static str = "\x1b[1m";

pub const BLUE: &'static str = "\x1b[38;2;97;175;239m";

pub const PURPLE: &'static str = "\x1b[38;2;198;120;221m";

pub const GREEN: &'static str = "\x1b[38;2;152;195;121m";

pub const YELLOW: &'static str = "\x1b[38;2;229;192;123m";

pub const CYAN: &'static str = "\x1b[38;2;86;182;194m";

pub const RED: &'static str = "\x1b[38;2;224;108;117m";

pub const BULLET: &'static str = "\u{25CF}";

pub const SMALL_BULLET: &'static str = "\u{2022}";

/// Name of the log file.
pub const FILE: &'static str = "huragok_log.txt";

/// How many lines the overlay can show.
pub const MAX_LINES: usize = 200;

/// Width of the tag column.
pub const TAG_WIDTH: usize = 9;

/// The recent lines, oldest first, and the last line with how often it was repeated.
pub struct Log {
    pub lines: Vec<String>,
    pub last: String,
    pub dup: u32,
}

impl View for Log {
    type V = Seq<Seq<char>>;

    open spec fn view(&self) -> Seq<Seq<char>> {
        texts(self.lines@)
    }
}

impl Log {
    /// The log never keeps more lines than the overlay can show.
    pub open spec fn wf(&self) -> bool {
        self.lines@.len() <= MAX_LINES
    }

    /// An empty log.
    pub fn new() -> (r: Log)
        ensures
            r.wf(),
            r@ == Seq::<Seq<char>>::empty(),
            r.last@ == Seq::<char>::empty(),
            r.dup == 0,
    {
        let r = Log { lines: Vec::new(), last: String::new(), dup: 0 };
        assert(r@ =~= Seq::<Seq<char>>::empty());
        r
    }
}

/// The lines after one more: the oldest of a full list goes.
pub open spec fn kept(lines: Seq<Seq<char>>, msg: Seq<char>) -> Seq<Seq<char>> {
    if lines.len() < MAX_LINES {
        lines.push(msg)
    } else {
        lines.skip(1).push(msg)
    }
}

/// The colour of a tag, by what it begins with.
pub open spec fn color_of(tag: Seq<char>) -> Seq<char> {
    if begins(tag, "freecam"@) || begins(tag, "camhook"@) || begins(tag, "cam"@) {
        BLUE@
    } else if begins(tag, "panel"@) || begins(tag, "imgui"@) || begins(tag, "demo"@) || begins(
        tag,
        "hud"@,
    ) {
        PURPLE@
    } else if begins(tag, "fullbody"@) || begins(tag, "scale"@) {
        GREEN@
    } else if begins(tag, "pawn"@) || begins(tag, "cheat"@) || begins(tag, "freeze"@) {
        YELLOW@
    } else if begins(tag, "time"@) || begins(tag, "cine"@) {
        CYAN@
    } else if begins(tag, "fault"@) || begins(tag, "err"@) {
        RED@
    } else if begins(tag, "console"@) || begins(tag, "hook"@) || begins(tag, "verify"@) || begins(
        tag,
        "scan"@,
    ) {
        DIM@
    } else {
        ACCENT@
    }
}

/// The colour of a tag.
pub fn tag_color(tag: &str) -> (r: &'static str)
    ensures
        r@ == color_of(tag@),
{
    if text::starts_with(tag, "freecam") || text::starts_with(tag, "camhook") || text::starts_with(
        tag,
        "cam",
    ) {
        BLUE
    } else if text::starts_with(tag, "panel") || text::starts_with(tag, "imgui")
        || text::starts_with(tag, "demo") || text::starts_with(tag, "hud") {
        PURPLE
    } else if text::starts_with(tag, "fullbody") || text::starts_with(tag, "scale") {
        GREEN
    } else if text::starts_with(tag, "pawn") || text::starts_with(tag, "cheat")
        || text::starts_with(tag, "freeze") {
        YELLOW
    } else if text::starts_with(tag, "time") || text::starts_with(tag, "cine") {
        CYAN
    } else if text::starts_with(tag, "fault") || text::starts_with(tag, "err") {
        RED
    } else if text::starts_with(tag, "console") || text::starts_with(tag, "hook")
        || text::starts_with(tag, "verify") || text::starts_with(tag, "scan") {
        DIM
    } else {
        ACCENT
    }
}

/// Position of the first closing bracket of `s` at or after `i`, or the length of `s`.
pub open spec fn bracket(s: Seq<char>, i: int) -> int
    decreases s.len() - i,
{
    if i < 0 || i >= s.len() {
        s.len() as int
    } else if s[i] == ']' {
        i
    } else {
        bracket(s, i + 1)
    }
}

/// The line begins with a tag in brackets.
pub open spec fn tagged(msg: Seq<char>) -> bool {
    msg.len() > 0 && msg[0] == '[' && bracket(msg, 1) < msg.len()
}

/// What the console shows of a line that does not repeat the one before it.
pub open spec fn shown(msg: Seq<char>) -> Seq<char> {
    if msg.len() > 0 && msg[0] == ' ' {
        "      "@ + DIM@ + trimmed_start(msg) + RESET@ + "\n"@
    } else if tagged(msg) {
        let e = bracket(msg, 1);
        let tag = msg.subrange(1, e);
        let body = trimmed_start(msg.subrange(e + 1, msg.len() as int));
        let c = color_of(tag);
        "  "@ + c + BULLET@ + RESET@ + " "@ + c + padded_right(tag, TAG_WIDTH as int) + RESET@
            + " "@ + body + "\n"@
    } else {
        "  "@ + DIM@ + SMALL_BULLET@ + RESET@ + " "@ + msg + "\n"@
    }
}

/// The number behind `n`, wrapping.
pub open spec fn next32(n: u32) -> u32 {
    if n == u32::MAX {
        0
    } else {
        (n + 1) as u32
    }
}

/// What the console shows of a repeated line.
pub open spec fn repeated(times: u32) -> Seq<char> {
    "\r    "@ + DIM@ + "repeated x"@ + dec(times as nat) + RESET@
}

fn find_bracket(v: &Vec<char>) -> (r: usize)
    requires
        v@.len() > 0,
    ensures
        r == bracket(v@, 1),
        1 <= r,
{
    let mut i: usize = 1;
    while i < v.len() && v[i] != ']'
        invariant
            1 <= i <= v.len(),
            bracket(v@, 1) == bracket(v@, i as int),
        decreases v.len() - i,
    {
        i += 1;
    }
    i
}

fn show(msg: &str) -> (r: String)
    ensures
        r@ == shown(msg@),
{
    let v = text::chars_of(msg);
    let mut out = String::new();
    if v.len() > 0 && v[0] == ' ' {
        let body = text::trim_start(msg);
        out.append("      ");
        out.append(DIM);
        out.append(body.as_str());
        out.append(RESET);
        out.append("\n");
        assert(out@ =~= shown(msg@));
        return out;
    }
    if v.len() > 0 && v[0] == '[' {
        let e = find_bracket(&v);
        if e < v.len() {
            let tag = text::string_of(&v, 1, e);
            let rest = text::string_of(&v, e + 1, v.len());
            let body = text::trim_start(rest.as_str());
            let c = tag_color(tag.as_str());
            let wide = text::pad_right(tag.as_str(), TAG_WIDTH);
            out.append("  ");
            out.append(c);
            out.append(BULLET);
            out.append(RESET);
            out.append(" ");
            out.append(c);
            out.append(wide.as_str());
            out.append(RESET);
            out.append(" ");
            out.append(body.as_str());
            out.append("\n");
            assert(out@ =~= shown(msg@));
            return out;
        }
    }
    out.append("  ");
    out.append(DIM);
    out.append(SMALL_BULLET);
    out.append(RESET);
    out.append(" ");
    out.append(msg);
    out.append("\n");
    assert(out@ =~= shown(msg@));
    out
}

fn remember(l: &mut Log, msg: &str)
    requires
        old(l).wf(),
    ensures
        final(l).wf(),
        final(l)@ == kept(old(l)@, msg@),
        final(l).last == old(l).last,
        final(l).dup == old(l).dup,
{
    let ghost before = l.lines@;
    if l.lines.len() >= MAX_LINES {
        l.lines.remove(0);
    }
    l.lines.push(text::owned(msg));
    assert(l@ =~= kept(texts(before), msg@));
}

/// What the console shows of a line, and how often it was repeated by then: behind a row of
/// repetitions a new line is begun.
pub open spec fn emitted(last: Seq<char>, dup: u32, msg: Seq<char>) -> (Seq<char>, u32) {
    if msg == last {
        (repeated(next32(next32(dup))), next32(dup))
    } else {
        (
            if dup > 0 {
                "\n"@ + shown(msg)
            } else {
                shown(msg)
            },
            0,
        )
    }
}

/// Log one line. Returns what the console shows of it; the line itself goes into the file.
pub fn emit(l: &mut Log, msg: &str) -> (r: String)
    requires
        old(l).wf(),
    ensures
        final(l).wf(),
        final(l)@ == kept(old(l)@, msg@),
        final(l).last@ == msg@,
        (r@, final(l).dup) == emitted(old(l).last@, old(l).dup, msg@),
{
    remember(l, msg);
    let mut out = String::new();
    if text::same(msg, l.last.as_str()) {
        l.dup = l.dup.wrapping_add(1);
        let n = text::decimal(l.dup.wrapping_add(1) as u64);
        out.append("\r    ");
        out.append(DIM);
        out.append("repeated x");
        out.append(n.as_str());
        out.append(RESET);
        assert(out@ =~= repeated(next32(next32(old(l).dup))));
        return out;
    }
    let line = show(msg);
    if l.dup > 0 {
        out.append("\n");
        l.dup = 0;
    }
    out.append(line.as_str());
    l.last = text::owned(msg);
    assert(out@ =~= if old(l).dup > 0 {
        "\n"@ + shown(msg@)
    } else {
        shown(msg@)
    });
    out
}

/// The last `max` of the lines.
pub open spec fn last_lines(lines: Seq<Seq<char>>, max: nat) -> Seq<Seq<char>> {
    if lines.len() <= max {
        lines
    } else {
        lines.skip(lines.len() - max)
    }
}

/// Copy the last `max` lines, oldest first, into `out`.
pub fn recent(l: &Log, out: &mut Vec<String>, max: usize)
    ensures
        texts(final(out)@) == last_lines(l@, max as nat),
{
    *out = Vec::new();
    let n = l.lines.len();
    let start: usize = if n <= max {
        0
    } else {
        n - max
    };
    let mut i: usize = start;
    assert(texts(out@) =~= l@.subrange(start as int, i as int));
    while i < n
        invariant
            start <= i <= n,
            n == l.lines@.len(),
            texts(out@) == l@.subrange(start as int, i as int),
        decreases n - i,
    {
        let ghost before = out@;
        out.push(text::owned(l.lines[i].as_str()));
        assert(texts(out@) =~= texts(before).push(l@[i as int]));
        assert(texts(out@) =~= l@.subrange(start as int, i + 1));
        i += 1;
    }
    assert(texts(out@) =~= last_lines(l@, max as nat));
}

/// The startup header for the build named `build`.
pub open spec fn header(build: Seq<char>) -> Seq<char> {
    "\n  "@ + BOLD@ + ACCENT@ + BULLET@ + RESET@ + " "@ + BOLD@ + "Huragok"@ + RESET@ + " "@ + DIM@
        + "- in-game hook engine  (build "@ + build + ")"@ + RESET@ + "\n"@ + "  "@ + DIM@
        + Seq::new(30, |i: int| '\u{2500}') + RESET@ + "\n"@ + "  "@ + DIM@
        + "waiting for a mission - hooks automatically once the world loads..."@ + RESET@ + "\n\n"@
}

/// The startup header.
pub fn banner(build: &str) -> (r: String)
    ensures
        r@ == header(build@),
{
    let mut out = String::new();
    out.append("\n  ");
    out.append(BOLD);
    out.append(ACCENT);
    out.append(BULLET);
    out.append(RESET);
    out.append(" ");
    out.append(BOLD);
    out.append("Huragok");
    out.append(RESET);
    out.append(" ");
    out.append(DIM);
    out.append("- in-game hook engine  (build ");
    out.append(build);
    out.append(")");
    out.append(RESET);
    out.append("\n");
    out.append("  ");
    out.append(DIM);
    let ghost before = out@;
    let mut i: usize = 0;
    while i < 30
        invariant
            i <= 30,
            out@ == before + Seq::new(i as nat, |k: int| '\u{2500}'),
        decreases 30 - i,
    {
        out.push('\u{2500}');
        assert(out@ =~= before + Seq::new((i + 1) as nat, |k: int| '\u{2500}'));
        i += 1;
    }
    out.append(RESET);
    out.append("\n");
    out.append("  ");
    out.append(DIM);
    out.append("waiting for a mission - hooks automatically once the world loads...");
    out.append(RESET);
    out.append("\n\n");
    assert(out@ =~= header(build@));
    out
}

/// The log keeps the newest lines: after any row of them, the last 200, oldest first.
pub proof fn law_log_keeps_newest(lines: Seq<Seq<char>>, more: Seq<Seq<char>>)
    requires
        lines.len() <= MAX_LINES,
    ensures
        more.fold_left(lines, |l: Seq<Seq<char>>, s: Seq<char>| kept(l, s)) == last_lines(
            lines + more,
            MAX_LINES as nat,
        ),
    decreases more.len(),
{
    let all = lines + more;
    if more.len() > 0 {
        let init = more.drop_last();
        law_log_keeps_newest(lines, init);
        let some = lines + init;
        assert(all =~= some.push(more.last()));
        if some.len() >= MAX_LINES {
            if some.len() == MAX_LINES {
                assert(some.skip(0) =~= some);
            }
            assert(last_lines(all, MAX_LINES as nat) =~= last_lines(some, MAX_LINES as nat).skip(
                1,
            ).push(more.last()));
        }
    } else {
        assert(all =~= lines);
    }
}

proof fn lemma_begins(s: Seq<char>, p: Seq<char>, i: int)
    requires
        begins(s, p),
        0 <= i < p.len(),
    ensures
        s[i] == p[i],
{
    assert(s.subrange(0, p.len() as int)[i] == s[i]);
}

/// The colour of a tag: the camera is blue, the panel purple, the body green, the player's pawn
/// yellow, time cyan, faults red, and the engine's own business is dim. Any other tag has the
/// accent.
pub proof fn law_tag_colours(tag: Seq<char>)
    ensures
        begins(tag, "freecam"@) ==> color_of(tag) == BLUE@,
        begins(tag, "camhook"@) ==> color_of(tag) == BLUE@,
        begins(tag, "cam"@) ==> color_of(tag) == BLUE@,
        begins(tag, "panel"@) ==> color_of(tag) == PURPLE@,
        begins(tag, "imgui"@) ==> color_of(tag) == PURPLE@,
        begins(tag, "demo"@) ==> color_of(tag) == PURPLE@,
        begins(tag, "hud"@) ==> color_of(tag) == PURPLE@,
        begins(tag, "fullbody"@) ==> color_of(tag) == GREEN@,
        begins(tag, "scale"@) ==> color_of(tag) == GREEN@,
        begins(tag, "pawn"@) ==> color_of(tag) == YELLOW@,
        begins(tag, "cheat"@) ==> color_of(tag) == YELLOW@,
        begins(tag, "freeze"@) ==> color_of(tag) == YELLOW@,
        begins(tag, "time"@) ==> color_of(tag) == CYAN@,
        begins(tag, "cine"@) ==> color_of(tag) == CYAN@,
        begins(tag, "fault"@) ==> color_of(tag) == RED@,
        begins(tag, "err"@) ==> color_of(tag) == RED@,
        begins(tag, "console"@) ==> color_of(tag) == DIM@,
        begins(tag, "hook"@) ==> color_of(tag) == DIM@,
        begins(tag, "verify"@) ==> color_of(tag) == DIM@,
        begins(tag, "scan"@) ==> color_of(tag) == DIM@,
        !begins(tag, "freecam"@) && !begins(tag, "camhook"@) && !begins(tag, "cam"@)
            && !begins(tag, "panel"@) && !begins(tag, "imgui"@) && !begins(tag, "demo"@)
            && !begins(tag, "hud"@) && !begins(tag, "fullbody"@) && !begins(tag, "scale"@)
            && !begins(tag, "pawn"@) && !begins(tag, "cheat"@) && !begins(tag, "freeze"@)
            && !begins(tag, "time"@) && !begins(tag, "cine"@) && !begins(tag, "fault"@)
            && !begins(tag, "err"@) && !begins(tag, "console"@) && !begins(tag, "hook"@)
            && !begins(tag, "verify"@) && !begins(tag, "scan"@) ==> color_of(tag) == ACCENT@,
{
    reveal_strlit("freecam");
    reveal_strlit("camhook");
    reveal_strlit("cam");
    reveal_strlit("panel");
    reveal_strlit("imgui");
    reveal_strlit("demo");
    reveal_strlit("hud");
    reveal_strlit("fullbody");
    reveal_strlit("scale");
    reveal_strlit("pawn");
    reveal_strlit("cheat");
    reveal_strlit("freeze");
    reveal_strlit("time");
    reveal_strlit("cine");
    reveal_strlit("fault");
    reveal_strlit("err");
    reveal_strlit("console");
    reveal_strlit("hook");
    reveal_strlit("verify");
    reveal_strlit("scan");
    if begins(tag, "freecam"@) {
        lemma_begins(tag, "freecam"@, 0);
        lemma_begins(tag, "freecam"@, 1);
        lemma_begins(tag, "freecam"@, 2);
        lemma_begins(tag, "freecam"@, 3);
        lemma_begins(tag, "freecam"@, 4);
    }
    if begins(tag, "camhook"@) {
        lemma_begins(tag, "camhook"@, 0);
        lemma_begins(tag, "camhook"@, 1);
        lemma_begins(tag, "camhook"@, 2);
        lemma_begins(tag, "camhook"@, 3);
    }
    if begins(tag, "cam"@) {
        lemma_begins(tag, "cam"@, 0);
        lemma_begins(tag, "cam"@, 1);
        lemma_begins(tag, "cam"@, 2);
    }
    if begins(tag, "panel"@) {
        lemma_begins(tag, "panel"@, 0);
        lemma_begins(tag, "panel"@, 1);
        lemma_begins(tag, "panel"@, 2);
        lemma_begins(tag, "panel"@, 3);
    }
    if begins(tag, "imgui"@) {
        lemma_begins(tag, "imgui"@, 0);
        lemma_begins(tag, "imgui"@, 1);
        lemma_begins(tag, "imgui"@, 2);
        lemma_begins(tag, "imgui"@, 3);
    }
    if begins(tag, "demo"@) {
        lemma_begins(tag, "demo"@, 0);
        lemma_begins(tag, "demo"@, 1);
        lemma_begins(tag, "demo"@, 2);
        lemma_begins(tag, "demo"@, 3);
    }
    if begins(tag, "hud"@) {
        lemma_begins(tag, "hud"@, 0);
        lemma_begins(tag, "hud"@, 1);
        lemma_begins(tag, "hud"@, 2);
    }
    if begins(tag, "fullbody"@) {
        lemma_begins(tag, "fullbody"@, 0);
        lemma_begins(tag, "fullbody"@, 1);
        lemma_begins(tag, "fullbody"@, 2);
        lemma_begins(tag, "fullbody"@, 3);
    }
    if begins(tag, "scale"@) {
        lemma_begins(tag, "scale"@, 0);
        lemma_begins(tag, "scale"@, 1);
        lemma_begins(tag, "scale"@, 2);
        lemma_begins(tag, "scale"@, 3);
    }
    if begins(tag, "pawn"@) {
        lemma_begins(tag, "pawn"@, 0);
        lemma_begins(tag, "pawn"@, 1);
        lemma_begins(tag, "pawn"@, 2);
        lemma_begins(tag, "pawn"@, 3);
    }
    if begins(tag, "cheat"@) {
        lemma_begins(tag, "cheat"@, 0);
        lemma_begins(tag, "cheat"@, 1);
        lemma_begins(tag, "cheat"@, 2);
        lemma_begins(tag, "cheat"@, 3);
    }
    if begins(tag, "freeze"@) {
        lemma_begins(tag, "freeze"@, 0);
        lemma_begins(tag, "freeze"@, 1);
        lemma_begins(tag, "freeze"@, 2);
        lemma_begins(tag, "freeze"@, 3);
        lemma_begins(tag, "freeze"@, 4);
    }
    if begins(tag, "time"@) {
        lemma_begins(tag, "time"@, 0);
        lemma_begins(tag, "time"@, 1);
        lemma_begins(tag, "time"@, 2);
        lemma_begins(tag, "time"@, 3);
    }
    if begins(tag, "cine"@) {
        lemma_begins(tag, "cine"@, 0);
        lemma_begins(tag, "cine"@, 1);
        lemma_begins(tag, "cine"@, 2);
        lemma_begins(tag, "cine"@, 3);
    }
    if begins(tag, "fault"@) {
        lemma_begins(tag, "fault"@, 0);
        lemma_begins(tag, "fault"@, 1);
        lemma_begins(tag, "fault"@, 2);
        lemma_begins(tag, "fault"@, 3);
    }
    if begins(tag, "err"@) {
        lemma_begins(tag, "err"@, 0);
        lemma_begins(tag, "err"@, 1);
        lemma_begins(tag, "err"@, 2);
    }
    if begins(tag, "console"@) {
        lemma_begins(tag, "console"@, 0);
        lemma_begins(tag, "console"@, 1);
        lemma_begins(tag, "console"@, 2);
        lemma_begins(tag, "console"@, 3);
    }
    if begins(tag, "hook"@) {
        lemma_begins(tag, "hook"@, 0);
        lemma_begins(tag, "hook"@, 1);
        lemma_begins(tag, "hook"@, 2);
        lemma_begins(tag, "hook"@, 3);
    }
    if begins(tag, "verify"@) {
        lemma_begins(tag, "verify"@, 0);
        lemma_begins(tag, "verify"@, 1);
        lemma_begins(tag, "verify"@, 2);
        lemma_begins(tag, "verify"@, 3);
    }
    if begins(tag, "scan"@) {
        lemma_begins(tag, "scan"@, 0);
        lemma_begins(tag, "scan"@, 1);
        lemma_begins(tag, "scan"@, 2);
        lemma_begins(tag, "scan"@, 3);
    }
}

/// The colours, as the terminal has them.
pub proof fn law_colours()
    ensures
        BLUE@ == "\x1b[38;2;97;175;239m"@,
        PURPLE@ == "\x1b[38;2;198;120;221m"@,
        GREEN@ == "\x1b[38;2;152;195;121m"@,
        YELLOW@ == "\x1b[38;2;229;192;123m"@,
        CYAN@ == "\x1b[38;2;86;182;194m"@,
        RED@ == "\x1b[38;2;224;108;117m"@,
        DIM@ == "\x1b[38;2;128;128;128m"@,
        ACCENT@ == "\x1b[38;2;215;119;87m"@,
        RESET@ == "\x1b[0m"@,
        BOLD@ == "\x1b[1m"@,
{
}

/// The log keeps the last 200 lines: a new one is always the last, and only a full log drops its
/// oldest.
pub proof fn law_log_takes_line(lines: Seq<Seq<char>>, msg: Seq<char>)
    requires
        lines.len() <= 200,
    ensures
        kept(lines, msg).last() == msg,
        kept(lines, msg).len() <= 200,
        lines.len() < 200 ==> kept(lines, msg).drop_last() == lines,
        lines.len() == 200 ==> kept(lines, msg).drop_last() == lines.skip(1),
{
    assert(lines.len() < 200 ==> kept(lines, msg).drop_last() =~= lines);
    assert(lines.len() == 200 ==> kept(lines, msg).drop_last() =~= lines.skip(1));
}

/// A line that comes again is not shown again, but counted: the second time the count is 2, and
/// each time it grows by one. A line that differs is shown, on a line of its own where a count
/// stands before it, and counting begins anew.
pub proof fn law_repetitions_counted(last: Seq<char>, dup: u32, msg: Seq<char>)
    requires
        dup < u32::MAX - 1,
    ensures
        emitted(last, 0, last).0 == repeated(2),
        emitted(last, dup, last) == (repeated((dup + 2) as u32), (dup + 1) as u32),
        msg != last ==> emitted(last, dup, msg).1 == 0,
        msg != last && dup == 0 ==> emitted(last, dup, msg).0 == shown(msg),
        msg != last && dup > 0 ==> emitted(last, dup, msg).0 == "\n"@ + shown(msg),
{
}

/// A line with a tag shows the tag in brackets no more, but in its colour and nine wide, with the
/// text behind it; a line that begins with a space is shown dim and set in; any other is shown as
/// it is behind a small bullet.
pub proof fn law_lines_shown(tag: Seq<char>, body: Seq<char>, msg: Seq<char>)
    requires
        !tag.contains(']'),
        body.len() > 0,
        !crate::text::blank(body[0]),
    ensures
        shown(seq!['['] + tag + seq![']', ' '] + body) == "  "@ + color_of(tag) + BULLET@ + RESET@
            + " "@ + color_of(tag) + padded_right(tag, 9) + RESET@ + " "@ + body + "\n"@,
        shown(seq![' '] + body) == "      "@ + DIM@ + body + RESET@ + "\n"@,
        msg.len() > 0 && msg[0] != ' ' && msg[0] != '[' ==> shown(msg) == "  "@ + DIM@
            + SMALL_BULLET@ + RESET@ + " "@ + msg + "\n"@,
{
    let m = seq!['['] + tag + seq![']', ' '] + body;
    assert(m[0] == '[');
    assert forall|k: int| 1 <= k < 1 + tag.len() implies m[k] != ']' by {
        assert(m[k] == tag[k - 1]);
        assert(tag.contains(tag[k - 1]));
    }
    assert(m[tag.len() + 1int] == ']');
    lemma_bracket(m, 1, tag.len() + 1int);
    let e = bracket(m, 1);
    assert(m.subrange(1, e) =~= tag);
    let rest = m.subrange(e + 1, m.len() as int);
    assert(rest =~= seq![' '] + body);
    let s = seq![' '] + body;
    assert(s[0] == ' ');
    assert(s.skip(1) =~= body);
    lemma_no_blank(body);
    assert(trimmed_start(s) == trimmed_start(s.skip(1)));
}

proof fn lemma_bracket(s: Seq<char>, i: int, e: int)
    requires
        0 <= i <= e < s.len(),
        s[e] == ']',
        forall|k: int| i <= k < e ==> s[k] != ']',
    ensures
        bracket(s, i) == e,
    decreases e - i,
{
    if i < e {
        lemma_bracket(s, i + 1, e);
    }
}

proof fn lemma_no_blank(s: Seq<char>)
    requires
        s.len() > 0,
        !crate::text::blank(s[0]),
    ensures
        trimmed_start(s) == s,
{
}

/// The name of the file that the log is written to.
pub proof fn law_file_name()
    ensures
        FILE@ == "huragok_log.txt"@,
{
}

} // verus!
