//! Live statistics for the panel.

use vstd::prelude::*;

use crate::memory::{Bytes, Memory, off, u32_at};
use crate::offsets::UO_FLAGS;
use crate::text;
use crate::text::{mentions, utf8_len};
use crate::ue::fname::{obj_name, object_name};
use crate::ue::object::{element_count, num_elements, object_at, slot_object};
use crate::ue::reflect::{MAX_HOPS, TEMPLATE_FLAGS, class_of, class_ptr, descends, is_a};

verus! {

/// The statistics. Health and shield are single-precision percentages, not-a-number until read;
/// the counts are -1 until counted.
#[derive(Clone, Copy, Debug, PartialEq, Eq, Structural)]
pub struct Stats {
    pub health: u32,
    pub shield: u32,
    pub enemies_alive: i32,
    pub enemies_total: i32,
    pub valid: bool,
}

/// The statistics, with the number of refreshes and whether the first count was reported.
pub struct Board {
    pub stats: Stats,
    pub refreshes: u64,
    pub reported: bool,
}

/// A count that was not made yet.
pub const UNCOUNTED: i32 = -1;

/// How many refreshes there are to one count of the enemies.
pub const COUNT_EVERY: u64 = 16;

/// The pattern that stands for a value that was not read.
pub const NOT_A_NUMBER: u32 = 0x7fc0_0000;

impl Board {
    /// Nothing read yet.
    pub fn new() -> (r: Board)
        ensures
            r.stats == (Stats {
                health: NOT_A_NUMBER,
                shield: NOT_A_NUMBER,
                enemies_alive: UNCOUNTED,
                enemies_total: UNCOUNTED,
                valid: false,
            }),
            r.refreshes == 0,
            !r.reported,
    {
        Board {
            stats: Stats {
                health: NOT_A_NUMBER,
                shield: NOT_A_NUMBER,
                enemies_alive: UNCOUNTED,
                enemies_total: UNCOUNTED,
                valid: false,
            },
            refreshes: 0,
            reported: false,
        }
    }
}

/// The statistics for the panel.
pub fn snapshot(b: &Board) -> (r: Stats)
    ensures
        r == b.stats,
{
    b.stats
}

/// Whether the enemies are counted on refresh `n`.
pub open spec fn counts_on(n: u64) -> bool {
    n % COUNT_EVERY == 0
}

/// The statistics with the vitality that was read.
pub open spec fn with_vitals(s: Stats, vitals: Option<(u32, u32)>) -> Stats {
    match vitals {
        None => s,
        Some((health, shield)) => Stats { health, shield, valid: true, ..s },
    }
}

/// The statistics with the enemies that were counted.
pub open spec fn with_count(s: Stats, counted: Option<(i32, i32)>) -> Stats {
    match counted {
        None => Stats { enemies_alive: UNCOUNTED, enemies_total: UNCOUNTED, ..s },
        Some((alive, total)) => Stats { enemies_alive: alive, enemies_total: total, ..s },
    }
}

/// Take in the vitality that was read on a refresh, where the player's object could be read at
/// all. True if the enemies are to be counted on this refresh.
pub fn refresh(b: &mut Board, vitals: Option<(u32, u32)>) -> (r: bool)
    ensures
        r == counts_on(old(b).refreshes),
        *final(b) == (Board {
            stats: with_vitals(old(b).stats, vitals),
            refreshes: off(old(b).refreshes, 1),
            ..*old(b)
        }),
{
    if let Some((health, shield)) = vitals {
        b.stats.health = health;
        b.stats.shield = shield;
        b.stats.valid = true;
    }
    let n = b.refreshes;
    b.refreshes = n.wrapping_add(1);
    n % COUNT_EVERY == 0
}

/// Take in what came of counting the enemies: how many are alive and how many there are, or that
/// their class does not exist yet, which shows as unknown. True on the first count, when it is to
/// be reported.
pub fn note_count(b: &mut Board, counted: Option<(i32, i32)>) -> (r: bool)
    ensures
        r == (counted is Some && !old(b).reported),
        *final(b) == (Board {
            stats: with_count(old(b).stats, counted),
            reported: old(b).reported || counted is Some,
            ..*old(b)
        }),
{
    match counted {
        None => {
            b.stats.enemies_alive = UNCOUNTED;
            b.stats.enemies_total = UNCOUNTED;
            false
        },
        Some((alive, total)) => {
            b.stats.enemies_alive = alive;
            b.stats.enemies_total = total;
            let first = !b.reported;
            b.reported = true;
            first
        },
    }
}

/// The class name of an enemy.
pub open spec fn enemy_name(n: Seq<char>) -> bool {
    mentions(n, "Grunt"@) || mentions(n, "Elite"@) || mentions(n, "Jackal"@) || mentions(
        n,
        "Hunter"@,
    ) || mentions(n, "Brute"@) || mentions(n, "Drone"@) || mentions(n, "Flood"@) || mentions(
        n,
        "Infection"@,
    ) || mentions(n, "Combat"@) || mentions(n, "Carrier"@) || mentions(n, "Sentinel"@) || mentions(
        n,
        "Sangheili"@,
    ) || mentions(n, "Kig"@) || mentions(n, "Unggoy"@) || mentions(n, "Jiralhanae"@)
}

/// Whether a class name is that of an enemy.
pub fn is_enemy(n: &str) -> (r: bool)
    ensures
        r == enemy_name(n@),
{
    text::contains(n, "Grunt") || text::contains(n, "Elite") || text::contains(n, "Jackal")
        || text::contains(n, "Hunter") || text::contains(n, "Brute") || text::contains(n, "Drone")
        || text::contains(n, "Flood") || text::contains(n, "Infection") || text::contains(
        n,
        "Combat",
    ) || text::contains(n, "Carrier") || text::contains(n, "Sentinel") || text::contains(
        n,
        "Sangheili",
    ) || text::contains(n, "Kig") || text::contains(n, "Unggoy") || text::contains(n, "Jiralhanae")
}

/// The class name of a live character: `Some(None)` if the object is none, `None` on a fault.
pub open spec fn character_class(m: Bytes, base: u64, boa: u64, o: u64) -> Option<Option<Seq<char>>> {
    match u32_at(m, off(o, UO_FLAGS)) {
        None => None,
        Some(flags) => if flags & TEMPLATE_FLAGS != 0 {
            Some(None)
        } else {
            match class_ptr(m, o) {
                None => None,
                Some(c) => match descends(m, c, boa, MAX_HOPS as nat) {
                    None => None,
                    Some(false) => Some(None),
                    Some(true) => match object_name(m, base, c) {
                        None => None,
                        Some(cn) => if mentions(cn, "BipedActor"@) {
                            Some(Some(cn))
                        } else {
                            Some(None)
                        },
                    },
                },
            }
        },
    }
}

/// A sweep of the object table: the enemies found, and the class names seen.
pub struct Sweep {
    pub enemies: Vec<u64>,
    pub sample: String,
}

/// The sample with one more class name: it grows until it takes 300 bytes.
pub open spec fn sample_with(sample: Seq<char>, name: Seq<char>) -> Seq<char> {
    if utf8_len(sample) < 300 {
        sample + name + " "@
    } else {
        sample
    }
}

/// The sweep of the slots `i..n`, behind what was found so far: `None` on a fault.
pub open spec fn swept(
    m: Bytes,
    base: u64,
    boa: u64,
    i: int,
    n: int,
    enemies: Seq<u64>,
    sample: Seq<char>,
) -> Option<(Seq<u64>, Seq<char>)>
    decreases n - i,
{
    if i >= n {
        Some((enemies, sample))
    } else {
        match slot_object(m, base, i) {
            None => None,
            Some(0) => swept(m, base, boa, i + 1, n, enemies, sample),
            Some(o) => match character_class(m, base, boa, o) {
                None => None,
                Some(None) => swept(m, base, boa, i + 1, n, enemies, sample),
                Some(Some(cn)) => swept(
                    m,
                    base,
                    boa,
                    i + 1,
                    n,
                    if enemy_name(cn) {
                        enemies.push(o)
                    } else {
                        enemies
                    },
                    sample_with(sample, cn),
                ),
            },
        }
    }
}

fn find_character(m: &mut Memory, base: u64, boa: u64, o: u64) -> (r: Option<Option<String>>)
    requires
        boa != 0,
    ensures
        r is Some == character_class(old(m)@, base, boa, o) is Some,
        r matches Some(c) ==> character_class(old(m)@, base, boa, o) == Some(
            match c {
                Some(s) => Some(s@),
                None => None,
            },
        ),
        final(m)@ == old(m)@,
{
    let flags = m.read_u32(o.wrapping_add(UO_FLAGS))?;
    if flags & TEMPLATE_FLAGS != 0 {
        return Some(None);
    }
    let c = class_of(m, o)?;
    if !is_a(m, c, boa)? {
        return Some(None);
    }
    let cn = obj_name(m, base, c)?;
    if text::contains(cn.as_str(), "BipedActor") {
        Some(Some(cn))
    } else {
        Some(None)
    }
}

/// How a sweep comes out.
pub enum Swept {
    /// The class of the actors does not exist yet.
    NoClass,
    /// A fault ended it.
    Faulted,
    /// It got through.
    Done(Sweep),
}

/// Sweep the object table for enemies: live characters below the class `boa`, told by the
/// species in their class name.
pub fn count_enemies(m: &mut Memory, base: u64, boa: u64) -> (r: Swept)
    ensures
        ({
            let found = match element_count(old(m)@, base) {
                None => None,
                Some(n) => swept(
                    old(m)@,
                    base,
                    boa,
                    0,
                    n as int,
                    Seq::empty(),
                    Seq::empty(),
                ),
            };
            if boa == 0 {
                r is NoClass
            } else {
                match found {
                    None => r is Faulted,
                    Some((enemies, sample)) => r is Done && (r->0).enemies@ == enemies && (
                    r->0).sample@ == sample,
                }
            }
        }),
        final(m)@ == old(m)@,
{
    if boa == 0 {
        return Swept::NoClass;
    }
    match sweep(m, base, boa) {
        None => Swept::Faulted,
        Some(s) => Swept::Done(s),
    }
}

fn sweep(m: &mut Memory, base: u64, boa: u64) -> (r: Option<Sweep>)
    requires
        boa != 0,
    ensures
        match element_count(old(m)@, base) {
            None => r is None,
            Some(n) => match swept(
                old(m)@,
                base,
                boa,
                0,
                n as int,
                Seq::empty(),
                Seq::empty(),
            ) {
                None => r is None,
                Some((enemies, sample)) => r is Some && (r->0).enemies@ == enemies && (
                r->0).sample@ == sample,
            },
        },
        final(m)@ == old(m)@,
{
    let n = num_elements(m, base)?;
    let mut enemies: Vec<u64> = Vec::new();
    let mut sample = String::new();
    let ghost all = swept(m@, base, boa, 0, n as int, Seq::empty(), Seq::empty());
    let mut i: i32 = 0;
    while i < n
        invariant
            0 <= i,
            boa != 0,
            m@ == old(m)@,
            element_count(old(m)@, base) == Some(n),
            all == swept(old(m)@, base, boa, 0, n as int, Seq::empty(), Seq::empty()),
            all == swept(m@, base, boa, i as int, n as int, enemies@, sample@),
        decreases n - i,
    {
        let o = object_at(m, base, i)?;
        if o != 0 {
            if let Some(cn) = find_character(m, base, boa, o)? {
                let ghost before = sample@;
                if text::shorter_than(sample.as_str(), 300) {
                    sample.append(cn.as_str());
                    sample.append(" ");
                    assert(sample@ =~= before + cn@ + " "@);
                }
                if is_enemy(cn.as_str()) {
                    enemies.push(o);
                }
            }
        }
        i += 1;
    }
    Some(Sweep { enemies, sample })
}

/// How many of the enemies are alive: those that have a component and are not dead.
pub open spec fn living(seen: Seq<(bool, bool)>) -> nat
    decreases seen.len(),
{
    if seen.len() == 0 {
        0
    } else {
        living(seen.drop_last()) + if seen.last().0 && !seen.last().1 {
            1nat
        } else {
            0
        }
    }
}

/// Count the enemies that are alive. For each one, `seen` says whether it has a component, and
/// whether that says that it is dead.
pub fn count_alive(seen: &Vec<(bool, bool)>) -> (r: usize)
    ensures
        r == living(seen@),
        r <= seen@.len(),
{
    let mut n: usize = 0;
    let mut i: usize = 0;
    assert(seen@.take(0) =~= Seq::empty());
    while i < seen.len()
        invariant
            i <= seen.len(),
            n <= i,
            n == living(seen@.take(i as int)),
        decreases seen.len() - i,
    {
        let (component, dead) = seen[i];
        proof {
            let t = seen@.take(i + 1);
            assert(t.drop_last() =~= seen@.take(i as int));
            assert(t.last() == seen@[i as int]);
        }
        if component && !dead {
            n += 1;
        }
        i += 1;
    }
    assert(seen@.take(seen.len() as int) =~= seen@);
    n
}

/// Of the first 16 refreshes, and of every 16 after them, the enemies are counted on the first.
pub proof fn law_counts_every_sixteenth(n: u64, k: int)
    requires
        0 < k < 16,
        n + k <= u64::MAX,
        counts_on(n),
    ensures
        counts_on(0),
        !counts_on((n + k) as u64),
        n + 16 <= u64::MAX ==> counts_on((n + 16) as u64),
{
}

/// What is read of the vitality and what is counted of the enemies go to their own places and
/// leave each other alone. A refresh without a reading changes nothing, and a count that could not
/// be made shows as unknown.
pub proof fn law_statistics_apart(s: Stats, h: u32, d: u32, alive: i32, total: i32)
    ensures
        ({
            let v = with_vitals(s, Some((h, d)));
            let c = with_count(s, Some((alive, total)));
            &&& v.health == h && v.shield == d && v.valid
            &&& v.enemies_alive == s.enemies_alive && v.enemies_total == s.enemies_total
            &&& c.enemies_alive == alive && c.enemies_total == total
            &&& c.health == s.health && c.shield == s.shield && c.valid == s.valid
            &&& with_vitals(s, None) == s
            &&& with_count(s, None).enemies_alive == -1
            &&& with_count(s, None).enemies_total == -1
        }),
{
}

/// An enemy is told by its species in the name of its class: those of the Covenant by either of
/// their names, the forms of the Flood, and the Sentinels.
pub proof fn law_enemy_species(n: Seq<char>)
    ensures
        mentions(n, "Grunt"@) ==> enemy_name(n),
        mentions(n, "Elite"@) ==> enemy_name(n),
        mentions(n, "Jackal"@) ==> enemy_name(n),
        mentions(n, "Hunter"@) ==> enemy_name(n),
        mentions(n, "Brute"@) ==> enemy_name(n),
        mentions(n, "Drone"@) ==> enemy_name(n),
        mentions(n, "Flood"@) ==> enemy_name(n),
        mentions(n, "Infection"@) ==> enemy_name(n),
        mentions(n, "Combat"@) ==> enemy_name(n),
        mentions(n, "Carrier"@) ==> enemy_name(n),
        mentions(n, "Sentinel"@) ==> enemy_name(n),
        mentions(n, "Sangheili"@) ==> enemy_name(n),
        mentions(n, "Kig"@) ==> enemy_name(n),
        mentions(n, "Unggoy"@) ==> enemy_name(n),
        mentions(n, "Jiralhanae"@) ==> enemy_name(n),
        enemy_name(n) ==> mentions(n, "Grunt"@) || mentions(n, "Elite"@) || mentions(n, "Jackal"@)
            || mentions(n, "Hunter"@) || mentions(n, "Brute"@) || mentions(n, "Drone"@)
            || mentions(n, "Flood"@) || mentions(n, "Infection"@) || mentions(n, "Combat"@)
            || mentions(n, "Carrier"@) || mentions(n, "Sentinel"@) || mentions(n, "Sangheili"@)
            || mentions(n, "Kig"@) || mentions(n, "Unggoy"@) || mentions(n, "Jiralhanae"@),
{
}

/// Each enemy with a component that does not say it is dead counts as one, and no other counts.
pub proof fn law_living_counts(seen: Seq<(bool, bool)>, component: bool, dead: bool)
    ensures
        living(Seq::empty()) == 0,
        living(seen.push((component, dead))) == living(seen) + (if component && !dead {
            1int
        } else {
            0
        }),
{
    assert(seen.push((component, dead)).drop_last() =~= seen);
}

/// A sweep finds, behind those it began with, the live characters of the slots whose class is an
/// enemy's: every one of them, and nothing else.
pub proof fn law_sweep_finds_enemies(
    m: Bytes,
    base: u64,
    boa: u64,
    i: int,
    n: int,
    enemies: Seq<u64>,
    sample: Seq<char>,
    o: u64,
)
    requires
        swept(m, base, boa, i, n, enemies, sample) is Some,
    ensures
        ({
            let found = (swept(m, base, boa, i, n, enemies, sample)->0).0;
            found.contains(o) <==> enemies.contains(o) || exists|k: int|
                i <= k < n && #[trigger] enemy_in(m, base, boa, k, o)
        }),
    decreases n - i,
{
    let found = (swept(m, base, boa, i, n, enemies, sample)->0).0;
    if i < n {
        let x = slot_object(m, base, i)->0;
        let class = character_class(m, base, boa, x)->0;
        let next = if x != 0 && class is Some && enemy_name(class->0) {
            enemies.push(x)
        } else {
            enemies
        };
        let more = if x != 0 && class is Some {
            sample_with(sample, class->0)
        } else {
            sample
        };
        law_sweep_finds_enemies(m, base, boa, i + 1, n, next, more, o);
        assert(next.contains(o) <==> enemies.contains(o) || enemy_in(m, base, boa, i, o)) by {
            if enemies.contains(o) {
                let k = choose|k: int| 0 <= k < enemies.len() && enemies[k] == o;
                assert(next[k] == o);
            }
            if enemy_in(m, base, boa, i, o) {
                assert(next[next.len() - 1] == o);
            }
            if next.contains(o) {
                let k = choose|k: int| 0 <= k < next.len() && next[k] == o;
                if k < enemies.len() {
                    assert(enemies[k] == o);
                }
            }
        }
        if exists|k: int| i <= k < n && #[trigger] enemy_in(m, base, boa, k, o) {
            let k = choose|k: int| i <= k < n && #[trigger] enemy_in(m, base, boa, k, o);
            if k > i {
                assert(i + 1 <= k < n && enemy_in(m, base, boa, k, o));
            }
        }
    }
}

/// Slot `k` of the object table holds `o`, a live character whose class is an enemy's.
pub open spec fn enemy_in(m: Bytes, base: u64, boa: u64, k: int, o: u64) -> bool {
    &&& o != 0
    &&& slot_object(m, base, k) == Some(o)
    &&& character_class(m, base, boa, o) matches Some(Some(cn)) && enemy_name(cn)
}

/// The sample of class names grows, each with a space behind it, until it takes 300 bytes.
pub proof fn law_sample_grows(sample: Seq<char>, name: Seq<char>)
    ensures
        utf8_len(sample) < 300 ==> sample_with(sample, name) == sample + name + " "@,
        utf8_len(sample) >= 300 ==> sample_with(sample, name) == sample,
{
}

} // verus!
