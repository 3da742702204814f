//! The mission readout: level, difficulty, checkpoint and segment.

use vstd::prelude::*;

use crate::bytes::{get_u32, get_u64, le64, overlaid, set_u64, set_u8, word32, word64, zeroed, zeros};
use crate::memory::{
    Bytes, Memory, i32_at, off, signed32, to_i32, u16_at, u64_at, u8_at, units_at,
};
use crate::text;
use crate::text::{lowered, mentions, trimmed, utf16_text};
use crate::ue::process_event::{Call, event_entry, process_event};
use crate::ue::reflect::{
    MAX_HOPS, class_like, find_cdo, find_class, find_function, function_ptr, named, table_search,
};

verus! {

pub const SEGMENT_RVA: u64 = 0x009a_14e0; // i32, index of the zone set

pub const GG_CHECKPOINT: u64 = 0x1f0; // u16

/// A checkpoint or segment that is not known.
pub const UNKNOWN: i32 = -1;

/// The readout. -1 stands for an unknown checkpoint or segment.
pub struct Info {
    pub level: String,
    pub difficulty: String,
    pub checkpoint: i32,
    pub segment: i32,
}

impl Info {
    /// Nothing known yet.
    pub fn new() -> (r: Info)
        ensures
            r.level@ == Seq::<char>::empty(),
            r.difficulty@ == Seq::<char>::empty(),
            r.checkpoint == UNKNOWN,
            r.segment == UNKNOWN,
    {
        Info { level: String::new(), difficulty: String::new(), checkpoint: UNKNOWN, segment: UNKNOWN }
    }
}

/// The readout for the panel: level, difficulty, checkpoint, segment.
pub fn snapshot(i: &Info) -> (r: (String, String, i32, i32))
    ensures
        r.0@ == i.level@,
        r.1@ == i.difficulty@,
        r.2 == i.checkpoint,
        r.3 == i.segment,
{
    (
        text::owned(i.level.as_str()),
        text::owned(i.difficulty.as_str()),
        i.checkpoint,
        i.segment,
    )
}

/// The title of the mission that a level code stands for, by the code in it.
pub open spec fn title_of(code: Seq<char>) -> Option<Seq<char>> {
    if mentions(code, "a10"@) {
        Some("The Pillar of Autumn"@)
    } else if mentions(code, "a30"@) {
        Some("Halo"@)
    } else if mentions(code, "a50"@) {
        Some("Truth and Reconciliation"@)
    } else if mentions(code, "b30"@) {
        Some("The Silent Cartographer"@)
    } else if mentions(code, "b40"@) {
        Some("Assault on the Control Room"@)
    } else if mentions(code, "c10"@) {
        Some("343 Guilty Spark"@)
    } else if mentions(code, "c20"@) {
        Some("The Library"@)
    } else if mentions(code, "c40"@) {
        Some("Two Betrayals"@)
    } else if mentions(code, "d20"@) {
        Some("Keyes"@)
    } else if mentions(code, "d40"@) {
        Some("The Maw"@)
    } else {
        None
    }
}

/// How a level is shown: its title with the level behind it, or the level alone.
pub open spec fn mission_text(level: Seq<char>) -> Seq<char> {
    match title_of(lowered(trimmed(level))) {
        None => trimmed(level),
        Some(t) => t + " ("@ + trimmed(level) + ")"@,
    }
}

fn find_title(code: &str) -> (r: Option<&'static str>)
    ensures
        r is Some == title_of(code@) is Some,
        r matches Some(t) ==> title_of(code@) == Some(t@),
{
    if text::contains(code, "a10") {
        Some("The Pillar of Autumn")
    } else if text::contains(code, "a30") {
        Some("Halo")
    } else if text::contains(code, "a50") {
        Some("Truth and Reconciliation")
    } else if text::contains(code, "b30") {
        Some("The Silent Cartographer")
    } else if text::contains(code, "b40") {
        Some("Assault on the Control Room")
    } else if text::contains(code, "c10") {
        Some("343 Guilty Spark")
    } else if text::contains(code, "c20") {
        Some("The Library")
    } else if text::contains(code, "c40") {
        Some("Two Betrayals")
    } else if text::contains(code, "d20") {
        Some("Keyes")
    } else if text::contains(code, "d40") {
        Some("The Maw")
    } else {
        None
    }
}

/// The title of a level, as in "Truth and Reconciliation (a50)"; an unknown level is shown as it
/// is.
pub fn mission_title(level: &str) -> (r: String)
    ensures
        r@ == mission_text(level@),
{
    let id = text::trim(level);
    let code = text::lower(id.as_str());
    match find_title(code.as_str()) {
        None => id,
        Some(t) => {
            let mut out = text::owned(t);
            out.append(" (");
            out.append(id.as_str());
            out.append(")");
            assert(out@ =~= mission_text(level@));
            out
        },
    }
}

/// The engine string whose header stands at `o` of a parameter block: data pointer, then length
/// with the terminating zero. An implausible one reads as empty; `None` on a fault.
pub open spec fn string_at(m: Bytes, buf: Seq<u8>, o: int) -> Option<Seq<char>> {
    if o + 12 > buf.len() {
        Some(Seq::empty())
    } else {
        let data = word64(buf, o);
        let num = signed32(word32(buf, o + 8));
        if data == 0 || num <= 1 || num > 512 {
            Some(Seq::empty())
        } else {
            match units_at(m, data, (num - 1) as nat) {
                None => None,
                Some(w) => Some(utf16_text(w)),
            }
        }
    }
}

/// Read the engine string whose header stands at `o` of a parameter block.
pub fn read_fstring(m: &mut Memory, buf: &Vec<u8>, o: usize) -> (r: Option<String>)
    ensures
        r is Some == string_at(old(m)@, buf@, o as int) is Some,
        r matches Some(s) ==> string_at(old(m)@, buf@, o as int) == Some(s@),
        final(m)@ == old(m)@,
{
    if o > buf.len() || buf.len() - o < 12 {
        return Some(String::new());
    }
    let data = get_u64(buf, o);
    let num = to_i32(get_u32(buf, o + 8));
    if data == 0 || num <= 1 || num > 512 {
        return Some(String::new());
    }
    let w = m.read_units(data, (num - 1) as usize)?;
    Some(text::from_utf16(&w))
}

/// The parameter block that asks for the level's name: the context, and the flag that removes
/// the prefix.
pub open spec fn level_parms(pc: u64) -> Seq<u8> {
    overlaid(overlaid(zeros(64), 0, le64(pc)), 8, seq![1u8])
}

/// What the call that asks for the level's name comes to, and the object it is made on. It is
/// made on the default object of the library class.
pub open spec fn level_call(m: Bytes, base: u64) -> (u64, Call) {
    match (
        table_search(m, base, |o: u64| class_like(m, base, o, "GameplayStatics"@)),
        table_search(m, base, |o: u64| named(m, base, o, "Default__GameplayStatics"@)),
    ) {
        (Some(gs), Some(cdo)) => if gs == 0 || cdo == 0 {
            (cdo, Call::NotFound)
        } else {
            match function_ptr(m, base, gs, "GetCurrentLevelName"@, MAX_HOPS as nat) {
                None => (cdo, Call::Fault),
                Some(f) => if f == 0 {
                    (cdo, Call::NotFound)
                } else {
                    match event_entry(m, cdo, f) {
                        None => (cdo, Call::Fault),
                        Some(entry) => (cdo, Call::Ready { func: f, entry }),
                    }
                },
            }
        },
        _ => (0, Call::Fault),
    }
}

/// Prepare the call that asks for the level's name: the object, the call, the parameter block.
pub fn ask_level(m: &mut Memory, base: u64, pc: u64) -> (r: (u64, Call, Vec<u8>))
    ensures
        (r.0, r.1) == level_call(old(m)@, base),
        r.2@ == level_parms(pc),
        final(m)@ == old(m)@,
{
    let mut p = zeroed(64);
    set_u64(&mut p, 0, pc);
    set_u8(&mut p, 8, 1);
    let gs = match find_class(m, base, "GameplayStatics") {
        None => return (0, Call::Fault, p),
        Some(c) => c,
    };
    let cdo = match find_cdo(m, base, "Default__GameplayStatics") {
        None => return (0, Call::Fault, p),
        Some(c) => c,
    };
    if gs == 0 || cdo == 0 {
        return (cdo, Call::NotFound, p);
    }
    let f = match find_function(m, base, gs, "GetCurrentLevelName") {
        None => return (cdo, Call::Fault, p),
        Some(f) => f,
    };
    if f == 0 {
        return (cdo, Call::NotFound, p);
    }
    match process_event(m, cdo, f) {
        None => (cdo, Call::Fault, p),
        Some(entry) => (cdo, Call::Ready { func: f, entry }, p),
    }
}

/// The name of a difficulty.
pub open spec fn difficulty_text(v: u8) -> Seq<char> {
    match v {
        1 => "Easy"@,
        2 => "Normal"@,
        3 => "Heroic"@,
        4 => "Legendary"@,
        _ => ""@,
    }
}

/// The name of a difficulty, empty for an unknown one.
pub fn difficulty_name(v: u8) -> (r: &'static str)
    ensures
        r@ == difficulty_text(v),
{
    match v {
        1 => "Easy",
        2 => "Normal",
        3 => "Heroic",
        4 => "Legendary",
        _ => "",
    }
}

/// What became of the question for the level's name.
pub enum Answer {
    /// It could not be asked.
    NotAsked,
    /// It faulted.
    Faulted,
    /// The parameter block after the call.
    Given(Vec<u8>),
}

/// The level that an answer gives: `None` on a fault.
pub open spec fn level_of(m: Bytes, a: Answer) -> Option<Seq<char>> {
    match a {
        Answer::NotAsked => Some(Seq::empty()),
        Answer::Faulted => None,
        Answer::Given(b) => string_at(m, b@, 0x10),
    }
}

/// The difficulty that the campaign component `comp` holds at `offset`: empty where there is
/// none, or on a fault.
pub open spec fn difficulty_of(m: Bytes, comp: u64, offset: Option<i32>) -> Seq<char> {
    match offset {
        Some(o) if comp != 0 && 0 <= o < 0x4000 => match u8_at(m, off(comp, o as u64)) {
            None => Seq::empty(),
            Some(v) => difficulty_text(v),
        },
        _ => Seq::empty(),
    }
}

/// The segment and the checkpoint: a fault leaves what comes behind it unknown.
pub open spec fn progress_of(m: Bytes, sim_base: u64, gg: u64) -> (i32, i32) {
    let seg = if sim_base == 0 {
        Some(UNKNOWN)
    } else {
        i32_at(m, off(sim_base, SEGMENT_RVA))
    };
    match seg {
        None => (UNKNOWN, UNKNOWN),
        Some(s) => if gg == 0 {
            (s, UNKNOWN)
        } else {
            match u16_at(m, off(gg, GG_CHECKPOINT)) {
                None => (s, UNKNOWN),
                Some(c) => (s, c as i32),
            }
        },
    }
}

fn read_difficulty(m: &mut Memory, comp: u64, offset: Option<i32>) -> (r: &'static str)
    ensures
        r@ == difficulty_of(old(m)@, comp, offset),
        final(m)@ == old(m)@,
{
    proof {
        reveal_strlit("");
        assert(""@ =~= Seq::<char>::empty());
    }
    if comp == 0 {
        return "";
    }
    match offset {
        None => "",
        Some(o) => if 0 <= o && o < 0x4000 {
            match m.read_u8(comp.wrapping_add(o as u64)) {
                None => "",
                Some(v) => difficulty_name(v),
            }
        } else {
            ""
        },
    }
}

fn read_progress(m: &mut Memory, sim_base: u64, gg: u64) -> (r: (i32, i32))
    ensures
        r == progress_of(old(m)@, sim_base, gg),
        final(m)@ == old(m)@,
{
    let mut segment: i32 = UNKNOWN;
    if sim_base != 0 {
        match m.read_i32(sim_base.wrapping_add(SEGMENT_RVA)) {
            None => return (UNKNOWN, UNKNOWN),
            Some(s) => {
                segment = s;
            },
        }
    }
    if gg == 0 {
        return (segment, UNKNOWN);
    }
    match m.read_u16(gg.wrapping_add(GG_CHECKPOINT)) {
        None => (segment, UNKNOWN),
        Some(c) => (segment, c as i32),
    }
}

/// The level that is shown after a refresh: one that is not known leaves the shown one.
pub open spec fn level_shown(shown: Seq<char>, level: Option<Seq<char>>) -> Seq<char> {
    match level {
        Some(l) if l.len() > 0 => mission_text(l),
        _ => shown,
    }
}

/// Refresh the readout. `answer` is what became of [`ask_level`]'s call; `comp` is the campaign
/// component and `offset` where it holds the difficulty. A level that is not known leaves the
/// shown one; a fault on the way to it leaves the difficulty empty.
pub fn refresh(
    i: &mut Info,
    m: &mut Memory,
    sim_base: u64,
    gg: u64,
    answer: &Answer,
    comp: u64,
    offset: Option<i32>,
)
    ensures
        ({
            let level = level_of(old(m)@, *answer);
            let progress = progress_of(old(m)@, sim_base, gg);
            &&& final(i).level@ == level_shown(old(i).level@, level)
            &&& final(i).difficulty@ == if level is None {
                Seq::empty()
            } else {
                difficulty_of(old(m)@, comp, offset)
            }
            &&& final(i).segment == progress.0
            &&& final(i).checkpoint == progress.1
        }),
        final(m)@ == old(m)@,
{
    let level = match answer {
        Answer::NotAsked => Some(String::new()),
        Answer::Faulted => None,
        Answer::Given(b) => read_fstring(m, b, 0x10),
    };
    let (segment, checkpoint) = read_progress(m, sim_base, gg);
    i.difficulty = match level {
        None => String::new(),
        Some(_) => text::owned(read_difficulty(m, comp, offset)),
    };
    if let Some(l) = level {
        if l.as_str().unicode_len() > 0 {
            i.level = mission_title(l.as_str());
        }
    }
    i.checkpoint = checkpoint;
    i.segment = segment;
}

/// The scenario list of the campaign object `campaign`, whose header stands at `offset`: the
/// address of its data, and its length.
pub fn diag_mission(m: &mut Memory, campaign: u64, offset: i32) -> (r: Option<(u64, i32)>)
    ensures
        r == if campaign == 0 || offset < 0 {
            None
        } else {
            let a = off(campaign, offset as u64);
            match (u64_at(old(m)@, a), i32_at(old(m)@, off(a, 8))) {
                (Some(data), Some(num)) => Some((data, num)),
                _ => None,
            }
        },
        final(m)@ == old(m)@,
{
    if campaign == 0 || offset < 0 {
        return None;
    }
    let a = campaign.wrapping_add(offset as u64);
    let data = m.read_u64(a)?;
    let num = m.read_i32(a.wrapping_add(8))?;
    Some((data, num))
}

/// The shown title of a mission ends in the level it was made from, and a level without a known
/// code is shown as it is.
pub proof fn law_title_keeps_level(level: Seq<char>)
    ensures
        title_of(lowered(trimmed(level))) is None ==> mission_text(level) == trimmed(level),
        title_of(lowered(trimmed(level))) is Some ==> {
            let t = mission_text(level);
            let tail = " ("@ + trimmed(level) + ")"@;
            t.skip(t.len() - tail.len()) == tail
        },
{
    if let Some(t) = title_of(lowered(trimmed(level))) {
        let all = mission_text(level);
        let tail = " ("@ + trimmed(level) + ")"@;
        assert(all =~= t + tail);
        assert(all.skip(all.len() - tail.len()) =~= tail);
    }
}

/// `code` holds `part`, and no other code of a mission.
pub open spec fn only(code: Seq<char>, part: Seq<char>) -> bool {
    &&& mentions(code, part)
    &&& part != "a10"@ ==> !mentions(code, "a10"@)
    &&& part != "a30"@ ==> !mentions(code, "a30"@)
    &&& part != "a50"@ ==> !mentions(code, "a50"@)
    &&& part != "b30"@ ==> !mentions(code, "b30"@)
    &&& part != "b40"@ ==> !mentions(code, "b40"@)
    &&& part != "c10"@ ==> !mentions(code, "c10"@)
    &&& part != "c20"@ ==> !mentions(code, "c20"@)
    &&& part != "c40"@ ==> !mentions(code, "c40"@)
    &&& part != "d20"@ ==> !mentions(code, "d20"@)
    &&& part != "d40"@ ==> !mentions(code, "d40"@)
}

/// A level that holds the code of one mission has the title of that mission, and a level that holds
/// none has no title.
pub proof fn law_titles_by_code(code: Seq<char>)
    ensures
        only(code, "a10"@) ==> title_of(code) == Some("The Pillar of Autumn"@),
        only(code, "a30"@) ==> title_of(code) == Some("Halo"@),
        only(code, "a50"@) ==> title_of(code) == Some("Truth and Reconciliation"@),
        only(code, "b30"@) ==> title_of(code) == Some("The Silent Cartographer"@),
        only(code, "b40"@) ==> title_of(code) == Some("Assault on the Control Room"@),
        only(code, "c10"@) ==> title_of(code) == Some("343 Guilty Spark"@),
        only(code, "c20"@) ==> title_of(code) == Some("The Library"@),
        only(code, "c40"@) ==> title_of(code) == Some("Two Betrayals"@),
        only(code, "d20"@) ==> title_of(code) == Some("Keyes"@),
        only(code, "d40"@) ==> title_of(code) == Some("The Maw"@),
        title_of(code) is None <==> !mentions(code, "a10"@) && !mentions(code, "a30"@)
            && !mentions(code, "a50"@) && !mentions(code, "b30"@) && !mentions(code, "b40"@)
            && !mentions(code, "c10"@) && !mentions(code, "c20"@) && !mentions(code, "c40"@)
            && !mentions(code, "d20"@) && !mentions(code, "d40"@),
{
    reveal_strlit("a10");
    reveal_strlit("a30");
    reveal_strlit("a50");
    reveal_strlit("b30");
    reveal_strlit("b40");
    reveal_strlit("c10");
    reveal_strlit("c20");
    reveal_strlit("c40");
    reveal_strlit("d20");
    reveal_strlit("d40");
    lemma_codes_differ();
}

proof fn lemma_codes_differ()
    ensures
        "a10"@ != "a30"@,
        "a10"@ != "a50"@,
        "a10"@ != "b30"@,
        "a10"@ != "b40"@,
        "a10"@ != "c10"@,
        "a10"@ != "c20"@,
        "a10"@ != "c40"@,
        "a10"@ != "d20"@,
        "a10"@ != "d40"@,
        "a30"@ != "a50"@,
        "a30"@ != "b30"@,
        "a30"@ != "b40"@,
        "a30"@ != "c10"@,
        "a30"@ != "c20"@,
        "a30"@ != "c40"@,
        "a30"@ != "d20"@,
        "a30"@ != "d40"@,
        "a50"@ != "b30"@,
        "a50"@ != "b40"@,
        "a50"@ != "c10"@,
        "a50"@ != "c20"@,
        "a50"@ != "c40"@,
        "a50"@ != "d20"@,
        "a50"@ != "d40"@,
        "b30"@ != "b40"@,
        "b30"@ != "c10"@,
        "b30"@ != "c20"@,
        "b30"@ != "c40"@,
        "b30"@ != "d20"@,
        "b30"@ != "d40"@,
        "b40"@ != "c10"@,
        "b40"@ != "c20"@,
        "b40"@ != "c40"@,
        "b40"@ != "d20"@,
        "b40"@ != "d40"@,
        "c10"@ != "c20"@,
        "c10"@ != "c40"@,
        "c10"@ != "d20"@,
        "c10"@ != "d40"@,
        "c20"@ != "c40"@,
        "c20"@ != "d20"@,
        "c20"@ != "d40"@,
        "c40"@ != "d20"@,
        "c40"@ != "d40"@,
        "d20"@ != "d40"@,
{
    reveal_strlit("a10");
    reveal_strlit("a30");
    reveal_strlit("a50");
    reveal_strlit("b30");
    reveal_strlit("b40");
    reveal_strlit("c10");
    reveal_strlit("c20");
    reveal_strlit("c40");
    reveal_strlit("d20");
    reveal_strlit("d40");
    assert("a10"@[0] == 'a' && "a10"@[1] == '1');
    assert("a30"@[0] == 'a' && "a30"@[1] == '3');
    assert("a50"@[0] == 'a' && "a50"@[1] == '5');
    assert("b30"@[0] == 'b' && "b30"@[1] == '3');
    assert("b40"@[0] == 'b' && "b40"@[1] == '4');
    assert("c10"@[0] == 'c' && "c10"@[1] == '1');
    assert("c20"@[0] == 'c' && "c20"@[1] == '2');
    assert("c40"@[0] == 'c' && "c40"@[1] == '4');
    assert("d20"@[0] == 'd' && "d20"@[1] == '2');
    assert("d40"@[0] == 'd' && "d40"@[1] == '4');
}

/// The difficulties from 1 to 4, from the easiest on. Any other number has no name.
pub proof fn law_difficulties(v: u8)
    ensures
        v == 1 ==> difficulty_text(v) == "Easy"@,
        v == 2 ==> difficulty_text(v) == "Normal"@,
        v == 3 ==> difficulty_text(v) == "Heroic"@,
        v == 4 ==> difficulty_text(v) == "Legendary"@,
        difficulty_text(v).len() == 0 <==> v == 0 || v > 4,
{
    reveal_strlit("");
    reveal_strlit("Easy");
    reveal_strlit("Normal");
    reveal_strlit("Heroic");
    reveal_strlit("Legendary");
}

/// The segment is read of the simulation, and the checkpoint of the game's globals. Without them,
/// or where they cannot be read, they are unknown, and without the segment the checkpoint is too.
pub proof fn law_progress_read(m: Bytes, sim_base: u64, gg: u64)
    ensures
        ({
            let (segment, checkpoint) = progress_of(m, sim_base, gg);
            let seg = i32_at(m, off(sim_base, 0x9a_14e0));
            let check = u16_at(m, off(gg, 0x1f0));
            &&& sim_base == 0 ==> segment == -1
            &&& sim_base != 0 && seg is Some ==> Some(segment) == seg
            &&& sim_base != 0 && seg is None ==> segment == -1 && checkpoint == -1
            &&& gg == 0 || check is None ==> checkpoint == -1
            &&& gg != 0 && check is Some && (sim_base == 0 || seg is Some) ==> checkpoint
                == check->0
        }),
{
}

/// A string is read where its header lies in the block and gives a length of 1 to 511 characters,
/// with the zero behind them left out. Any other header reads as an empty string.
pub proof fn law_strings_read(m: Bytes, buf: Seq<u8>, o: int)
    requires
        0 <= o,
        o + 12 <= buf.len(),
    ensures
        ({
            let data = word64(buf, o);
            let num = signed32(word32(buf, o + 8));
            &&& data == 0 || num < 2 || num > 512 ==> string_at(m, buf, o) == Some(Seq::<char>::empty())
            &&& data != 0 && 2 <= num <= 512 ==> match units_at(m, data, (num - 1) as nat) {
                None => string_at(m, buf, o) is None,
                Some(w) => string_at(m, buf, o) == Some(utf16_text(w)) && w.len() == num - 1,
            }
        }),
{
}

/// The level is asked for with the controller as the context, and without the prefix of its name.
pub proof fn law_level_block(pc: u64, i: int)
    requires
        0 <= i < 64,
    ensures
        level_parms(pc).len() == 64,
        i < 8 ==> level_parms(pc)[i] == le64(pc)[i],
        i == 8 ==> level_parms(pc)[i] == 1,
        i > 8 ==> level_parms(pc)[i] == 0,
{
}

/// A level that is known is shown by its title, and one that is not leaves the shown one. The
/// answer holds the level's name 16 bytes into the block.
pub proof fn law_level_read(m: Bytes, b: Vec<u8>, shown: Seq<char>, level: Seq<char>)
    ensures
        level_shown(shown, None) == shown,
        level.len() == 0 ==> level_shown(shown, Some(level)) == shown,
        level.len() > 0 ==> level_shown(shown, Some(level)) == mission_text(level),
        level_of(m, Answer::NotAsked) == Some(Seq::<char>::empty()),
        level_of(m, Answer::Faulted) is None,
        level_of(m, Answer::Given(b)) == string_at(m, b@, 16),
{
}

/// The difficulty is the byte that the component holds at an offset below 16384.
pub proof fn law_difficulty_read(m: Bytes, comp: u64, o: i32)
    ensures
        comp != 0 && 0 <= o < 16384 ==> (u8_at(m, off(comp, o as u64)) matches Some(v)
            ==> difficulty_of(m, comp, Some(o)) == difficulty_text(v)),
        comp == 0 || o < 0 || o >= 16384 ==> difficulty_of(m, comp, Some(o)).len() == 0,
        difficulty_of(m, comp, None).len() == 0,
{
}

} // verus!
