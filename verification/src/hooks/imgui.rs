//! The control panel: its sections, what each of its widgets shows, and what using one does.
//!
//! The host draws the widgets, and calls back with those that were used.

use vstd::prelude::*;

use crate::campaign::Info;
use crate::cmd;
use crate::cmd::{Cmd, Queue};
use crate::console;
use crate::console::Lines;
use crate::ieee::{
    ONE, at_most32, clamp32, clamped32, finite32, is_finite32, le32, less32, lesser32, lt32, min32,
};
use crate::input::{FASTEST, NARROWEST, SLOWEST, WIDEST};
use crate::mem::patch_ptr;
use crate::memory::{Bytes, Memory, off, store64, u32_at, u64_at};
use crate::offsets::{
    DRAWCONTROLS, DRAWCONTROLS_SLOT, GIMGUI_PTR, IMGUI_CTX_CURRENT_WINDOW, IMGUI_WIN_CONTENT_MAX_X,
    IMGUI_WIN_CURSOR_POS, IMGUI_WIN_DRAWLIST, IMGUI_WIN_SCROLLMAX_Y, IMGUI_WIN_SCROLL_Y,
};
use crate::paths;
use crate::paths::{Kf, Path, captured};
use crate::perf::Ring;
use crate::stats::{Board, Stats};
use crate::state::CamData;
use crate::text;
use crate::text::{dec, sdec, trimmed, utf8_lossy};

verus! {

/// How many skulls there are.
pub const SKULLS: usize = 53;

/// The place of the night-vision skull.
pub const NIGHT_VISION: usize = 1;

/// Bit pattern of `90.0`, the field of view that a reset gives.
pub const DEFAULT_FOV: u32 = 0x42b4_0000;

/// Bit pattern of `120.0`, the least rate at the top of the graph.
pub const GRAPH_LEAST: u32 = 0x42f0_0000;

/// Bit pattern of `360.0`, the greatest rate at the top of the graph.
pub const GRAPH_MOST: u32 = 0x43b4_0000;

/// A part of the panel whose drawing can fault on its own.
#[derive(Clone, Copy, Debug, PartialEq, Eq, Structural)]
pub enum Part {
    Whole,
    HealthBar,
    ShieldBar,
    FpsGraph,
    FreeCam,
    MouseLook,
    FovSlider,
    TimeSlider,
    Timeline,
    Flashlight,
    Skull,
    KeyframeWindow,
    ConsoleWindow,
}

/// The state of the panel.
pub struct Panel {
    /// The draw callback that was replaced, or 0.
    pub original: u64,
    /// The draw callback was replaced, or found to be another one.
    pub hooked: bool,
    pub shown: bool,
    pub show_keyframes: bool,
    pub show_console: bool,
    pub flashlight: bool,
    /// What was last chosen for each skull: the game does not tell.
    pub skulls: [bool; 53],
    /// The parts whose fault was reported.
    pub faulted: Vec<Part>,
}

impl Panel {
    /// Nothing installed, nothing shown, everything off.
    pub fn new() -> (r: Panel)
        ensures
            r.original == 0,
            !r.hooked,
            !r.shown,
            !r.show_keyframes,
            !r.show_console,
            !r.flashlight,
            forall|i: int| 0 <= i < SKULLS ==> !#[trigger] r.skulls[i],
            r.faulted@ == Seq::<Part>::empty(),
    {
        Panel {
            original: 0,
            hooked: false,
            shown: false,
            show_keyframes: false,
            show_console: false,
            flashlight: false,
            skulls: [false;53],
            faulted: Vec::new(),
        }
    }
}

// ---------------- the draw callback ----------------

/// What came of an attempt to install.
#[derive(Clone, Copy, Debug, PartialEq, Eq, Structural)]
pub enum Install {
    /// It was made before.
    Already,
    /// The pointer could not be read.
    Faulted,
    /// The pointer is not the one of the supported build: it is left alone, for good.
    Mismatch { found: u64 },
    /// The callback is replaced.
    Done,
}

/// What an attempt to install comes to, and panel and memory after it.
pub open spec fn installing(p: Panel, m: Bytes, base: u64, detour: u64) -> (Install, Panel, Bytes) {
    if p.hooked {
        (Install::Already, p, m)
    } else {
        match u64_at(m, off(base, DRAWCONTROLS_SLOT)) {
            None => (Install::Faulted, p, m),
            Some(found) => if found != off(base, DRAWCONTROLS) {
                (Install::Mismatch { found }, Panel { hooked: true, ..p }, m)
            } else {
                (
                    Install::Done,
                    Panel { hooked: true, original: found, ..p },
                    store64(m, off(base, DRAWCONTROLS_SLOT), detour),
                )
            },
        }
    }
}

/// Replace the plugin's draw callback, once, if it is the one of the supported build.
pub fn install(p: &mut Panel, m: &mut Memory, base: u64, detour: u64) -> (r: Install)
    ensures
        (r, *final(p), final(m)@) == installing(*old(p), old(m)@, base, detour),
{
    if p.hooked {
        return Install::Already;
    }
    let slot = base.wrapping_add(DRAWCONTROLS_SLOT);
    let found = match m.read_u64(slot) {
        None => return Install::Faulted,
        Some(f) => f,
    };
    if found != base.wrapping_add(DRAWCONTROLS) {
        p.hooked = true;
        return Install::Mismatch { found };
    }
    p.original = found;
    patch_ptr(m, slot, detour);
    p.hooked = true;
    Install::Done
}

/// Panel and memory after a toggle.
pub open spec fn toggled(p: Panel, m: Bytes, base: u64, detour: u64) -> (Panel, Bytes) {
    let i = installing(p, m, base, detour);
    (Panel { shown: !p.shown, ..i.1 }, i.2)
}

/// Show or hide the panel. The first time, its callback is installed.
pub fn toggle(p: &mut Panel, m: &mut Memory, base: u64, detour: u64) -> (r: Install)
    ensures
        (*final(p), final(m)@) == toggled(*old(p), old(m)@, base, detour),
        r == installing(*old(p), old(m)@, base, detour).0,
{
    let r = install(p, m, base, detour);
    p.shown = !p.shown;
    r
}

/// A second toggle undoes the first but for the callback, which stays installed and is not
/// installed again.
pub proof fn law_toggle_twice(p: Panel, m: Bytes, base: u64, detour: u64)
    requires
        p.hooked || u64_at(m, off(base, DRAWCONTROLS_SLOT)) is Some,
    ensures
        ({
            let one = toggled(p, m, base, detour);
            let two = toggled(one.0, one.1, base, detour);
            &&& two.0 == (Panel { shown: p.shown, ..one.0 })
            &&& two.1 == one.1
        }),
{
}

/// On another build, where the callback is another one, memory is never written.
pub proof fn law_other_build_untouched(p: Panel, m: Bytes, base: u64, detour: u64)
    requires
        u64_at(m, off(base, DRAWCONTROLS_SLOT)) != Some(off(base, DRAWCONTROLS)),
    ensures
        toggled(p, m, base, detour).1 == m,
{
}

/// A part of the panel has faulted. True the first time, when it is to be reported.
pub fn note_fault(p: &mut Panel, part: Part) -> (r: bool)
    ensures
        r == !old(p).faulted@.contains(part),
        final(p).faulted@ == if old(p).faulted@.contains(part) {
            old(p).faulted@
        } else {
            old(p).faulted@.push(part)
        },
        *final(p) == (Panel { faulted: final(p).faulted, ..*old(p) }),
{
    let mut i: usize = 0;
    while i < p.faulted.len()
        invariant
            i <= p.faulted.len(),
            *p == *old(p),
            forall|j: int| 0 <= j < i ==> p.faulted@[j] != part,
        decreases p.faulted.len() - i,
    {
        if p.faulted[i] == part {
            assert(p.faulted@.contains(part));
            return false;
        }
        i += 1;
    }
    p.faulted.push(part);
    true
}

/// The name of a part, for the report of its fault.
pub open spec fn part_name(part: Part) -> Seq<char> {
    match part {
        Part::Whole => "panel"@,
        Part::HealthBar => "health bar"@,
        Part::ShieldBar => "shield bar"@,
        Part::FpsGraph => "fps graph"@,
        Part::FreeCam => "free-cam checkbox"@,
        Part::MouseLook => "mouse checkbox"@,
        Part::FovSlider => "fov slider"@,
        Part::TimeSlider => "time slider"@,
        Part::Timeline => "timeline"@,
        Part::Flashlight => "flashlight"@,
        Part::Skull => "skull checkbox"@,
        Part::KeyframeWindow => "kf window"@,
        Part::ConsoleWindow => "console window"@,
    }
}

/// The name of a part, for the report of its fault.
pub fn name_of(part: Part) -> (r: &'static str)
    ensures
        r@ == part_name(part),
{
    match part {
        Part::Whole => "panel",
        Part::HealthBar => "health bar",
        Part::ShieldBar => "shield bar",
        Part::FpsGraph => "fps graph",
        Part::FreeCam => "free-cam checkbox",
        Part::MouseLook => "mouse checkbox",
        Part::FovSlider => "fov slider",
        Part::TimeSlider => "time slider",
        Part::Timeline => "timeline",
        Part::Flashlight => "flashlight",
        Part::Skull => "skull checkbox",
        Part::KeyframeWindow => "kf window",
        Part::ConsoleWindow => "console window",
    }
}

// ---------------- sections ----------------

/// The sections of the panel.
#[derive(Clone, Copy, Debug, PartialEq, Eq, Structural)]
pub enum Section {
    Stats,
    Campaign,
    Machinima,
    Timeline,
    Character,
    PawnFx,
    Skulls,
    Ui,
}

/// How many sections there are.
pub const SECTIONS: usize = 8;

/// The sections, from top to bottom.
pub open spec fn section_at(i: int) -> Section {
    if i == 0 {
        Section::Stats
    } else if i == 1 {
        Section::Campaign
    } else if i == 2 {
        Section::Machinima
    } else if i == 3 {
        Section::Timeline
    } else if i == 4 {
        Section::Character
    } else if i == 5 {
        Section::PawnFx
    } else if i == 6 {
        Section::Skulls
    } else {
        Section::Ui
    }
}

/// Whether a section is open at first.
pub open spec fn open_at_first(s: Section) -> bool {
    s is Stats || s is Campaign || s is Machinima || s is Timeline
}

/// The title of a section.
pub open spec fn title_of(s: Section) -> Seq<char> {
    match s {
        Section::Stats => "Stats"@,
        Section::Campaign => "Campaign"@,
        Section::Machinima => "Machinima"@,
        Section::Timeline => "Timeline"@,
        Section::Character => "Character / Pawn"@,
        Section::PawnFx => "Pawn FX"@,
        Section::Skulls => "Skulls"@,
        Section::Ui => "UI"@,
    }
}

/// The header of a section: its title, and the number and the flags that the drawing library
/// takes.
pub struct Header {
    pub section: Section,
    pub title: &'static str,
    pub id: u32,
    pub flags: i32,
}

fn title(s: Section) -> (r: &'static str)
    ensures
        r@ == title_of(s),
{
    match s {
        Section::Stats => "Stats",
        Section::Campaign => "Campaign",
        Section::Machinima => "Machinima",
        Section::Timeline => "Timeline",
        Section::Character => "Character / Pawn",
        Section::PawnFx => "Pawn FX",
        Section::Skulls => "Skulls",
        Section::Ui => "UI",
    }
}

/// The flags of a section's header: a framed header, open at first or not.
pub open spec fn header_flags(s: Section) -> i32 {
    if open_at_first(s) {
        0x3a
    } else {
        0x1a
    }
}

/// The header of the section at place `i`, from the top.
pub fn header(i: usize) -> (r: Header)
    requires
        i < SECTIONS,
    ensures
        r.section == section_at(i as int),
        r.title@ == title_of(section_at(i as int)),
        r.id == 0xc0de_0001 + i,
        r.flags == header_flags(section_at(i as int)),
{
    let section = if i == 0 {
        Section::Stats
    } else if i == 1 {
        Section::Campaign
    } else if i == 2 {
        Section::Machinima
    } else if i == 3 {
        Section::Timeline
    } else if i == 4 {
        Section::Character
    } else if i == 5 {
        Section::PawnFx
    } else if i == 6 {
        Section::Skulls
    } else {
        Section::Ui
    };
    let flags: i32 = if i < 4 {
        0x3a
    } else {
        0x1a
    };
    Header { section, title: title(section), id: 0xc0de_0001 + i as u32, flags }
}

// ---------------- widgets ----------------

/// What a button does.
#[derive(Clone, Copy, Debug, PartialEq, Eq, Structural)]
pub enum Action {
    /// Queue a command.
    Run(Cmd),
    FovReset,
    AddKeyframe,
    PlayStop,
    ClearPath,
    /// Show or hide the list of keyframes.
    KeyframeList,
    /// Show or hide the console.
    Console,
}

/// The checkboxes.
#[derive(Clone, Copy, Debug, PartialEq, Eq, Structural)]
pub enum Check {
    FreeCam,
    MouseLook,
    Flashlight,
    /// The skull at a place of the table.
    Skull(usize),
}

/// The sliders.
#[derive(Clone, Copy, Debug, PartialEq, Eq, Structural)]
pub enum Slider {
    Fov,
    Time,
}

/// One widget.
#[derive(Clone, Copy, Debug, PartialEq, Eq, Structural)]
pub enum Widget {
    /// The bars of health and shield, with the percentage.
    Health(u32),
    Shield(u32),
    /// Lines of text.
    Counting,
    Enemies(i32, i32),
    NoPawn,
    Loading,
    Mission,
    Difficulty,
    Checkpoint(i32),
    Segment(i32),
    Keyframes(usize, bool),
    /// A line with the frame rate.
    Fps(u32),
    FpsGraph,
    /// The keyframes and the playhead on a track.
    Track,
    Button(Action),
    Check(Check),
    Slider(Slider),
}

/// A widget, if it is shown.
pub open spec fn shown_if(asked: bool, w: Widget) -> Seq<Widget> {
    if asked {
        seq![w]
    } else {
        Seq::empty()
    }
}

/// The widgets of the statistics: the vitality once it was read, the enemies once they were
/// counted, and the frame rate.
pub open spec fn stats_widgets(s: Stats, fps: u32) -> Seq<Widget> {
    (if s.valid {
        seq![
            Widget::Health(s.health),
            Widget::Shield(s.shield),
            if s.enemies_total < 0 {
                Widget::Counting
            } else {
                Widget::Enemies(s.enemies_alive, s.enemies_total)
            },
        ]
    } else {
        seq![Widget::NoPawn]
    }) + seq![Widget::Fps(fps), Widget::FpsGraph]
}

/// The widgets of the campaign: what is known of the mission.
pub open spec fn campaign_widgets(i: Info) -> Seq<Widget> {
    seq![
        if i.level@.len() == 0 {
            Widget::Loading
        } else {
            Widget::Mission
        },
    ] + shown_if(i.difficulty@.len() > 0, Widget::Difficulty) + shown_if(
        i.checkpoint >= 0,
        Widget::Checkpoint(i.checkpoint),
    ) + shown_if(i.segment >= 0, Widget::Segment(i.segment)) + seq![
        Widget::Button(Action::Run(Cmd::DiagMission)),
    ]
}

/// The widgets of the film section.
pub open spec fn machinima_widgets() -> Seq<Widget> {
    seq![
        Widget::Check(Check::FreeCam),
        Widget::Check(Check::MouseLook),
        Widget::Slider(Slider::Fov),
        Widget::Slider(Slider::Time),
        Widget::Button(Action::Run(Cmd::Slomo(ONE))),
        Widget::Button(Action::FovReset),
        Widget::Button(Action::Run(Cmd::CineOn)),
        Widget::Button(Action::Run(Cmd::CineOff)),
        Widget::Button(Action::Run(Cmd::Pause)),
        Widget::Button(Action::Run(Cmd::SimFreeze)),
        Widget::Button(Action::Run(Cmd::SimUnfreeze)),
        Widget::Button(Action::Run(Cmd::DiagTime)),
    ]
}

/// The widgets of the timeline.
pub open spec fn timeline_widgets(count: usize, playing: bool) -> Seq<Widget> {
    seq![
        Widget::Track,
        Widget::Keyframes(count, playing),
        Widget::Button(Action::AddKeyframe),
        Widget::Button(Action::PlayStop),
        Widget::Button(Action::ClearPath),
        Widget::Button(Action::KeyframeList),
    ]
}

/// The widgets of the player's body.
pub open spec fn character_widgets() -> Seq<Widget> {
    seq![
        Widget::Button(Action::Run(Cmd::PawnHide)),
        Widget::Button(Action::Run(Cmd::PawnShow)),
        Widget::Button(Action::Run(Cmd::PawnNoCol)),
        Widget::Button(Action::Run(Cmd::PawnCol)),
        Widget::Button(Action::Run(Cmd::ScaleGiant)),
        Widget::Button(Action::Run(Cmd::ScaleTiny)),
        Widget::Button(Action::Run(Cmd::ScaleNormal)),
        Widget::Button(Action::Run(Cmd::Teleport)),
        Widget::Check(Check::Flashlight),
    ]
}

/// The widgets of the effects on the player's body.
pub open spec fn fx_widgets() -> Seq<Widget> {
    seq![
        Widget::Button(Action::Run(Cmd::CamoOn)),
        Widget::Button(Action::Run(Cmd::CamoOff)),
        Widget::Button(Action::Run(Cmd::OvershieldOn)),
        Widget::Button(Action::Run(Cmd::OvershieldOff)),
        Widget::Button(Action::Run(Cmd::ShieldBreak)),
        Widget::Button(Action::Run(Cmd::RechargePP)),
        Widget::Button(Action::Run(Cmd::RadialBlur)),
        Widget::Button(Action::Run(Cmd::Breath)),
        Widget::Button(Action::Run(Cmd::BloodHuman)),
        Widget::Button(Action::Run(Cmd::BloodCov)),
        Widget::Button(Action::Run(Cmd::BloodGrunt)),
        Widget::Button(Action::Run(Cmd::BloodBrute)),
    ]
}

/// The widgets of the skulls: a checkbox each.
pub open spec fn skull_widgets() -> Seq<Widget> {
    Seq::new(SKULLS as nat, |i: int| Widget::Check(Check::Skull(i as usize)))
}

/// The widgets of a section, from top to bottom.
pub open spec fn section_widgets(
    s: Section,
    b: Board,
    ring: Ring,
    info: Info,
    path: Path,
) -> Seq<Widget> {
    match s {
        Section::Stats => stats_widgets(b.stats, ring.cur),
        Section::Campaign => campaign_widgets(info),
        Section::Machinima => machinima_widgets(),
        Section::Timeline => timeline_widgets(path.kf@.len() as usize, path.playing),
        Section::Character => character_widgets(),
        Section::PawnFx => fx_widgets(),
        Section::Skulls => skull_widgets(),
        Section::Ui => seq![
            Widget::Button(Action::Run(Cmd::ImguiInput)),
            Widget::Button(Action::Console),
        ],
    }
}

fn list_stats(s: &Stats, fps: u32) -> (r: Vec<Widget>)
    ensures
        r@ == stats_widgets(*s, fps),
{
    let mut v: Vec<Widget> = Vec::new();
    if s.valid {
        v.push(Widget::Health(s.health));
        v.push(Widget::Shield(s.shield));
        if s.enemies_total < 0 {
            v.push(Widget::Counting);
        } else {
            v.push(Widget::Enemies(s.enemies_alive, s.enemies_total));
        }
    } else {
        v.push(Widget::NoPawn);
    }
    v.push(Widget::Fps(fps));
    v.push(Widget::FpsGraph);
    assert(v@ =~= stats_widgets(*s, fps));
    v
}

fn list_campaign(i: &Info) -> (r: Vec<Widget>)
    ensures
        r@ == campaign_widgets(*i),
{
    let mut v: Vec<Widget> = Vec::new();
    if i.level.as_str().unicode_len() == 0 {
        v.push(Widget::Loading);
    } else {
        v.push(Widget::Mission);
    }
    if i.difficulty.as_str().unicode_len() > 0 {
        v.push(Widget::Difficulty);
    }
    if i.checkpoint >= 0 {
        v.push(Widget::Checkpoint(i.checkpoint));
    }
    if i.segment >= 0 {
        v.push(Widget::Segment(i.segment));
    }
    v.push(Widget::Button(Action::Run(Cmd::DiagMission)));
    assert(v@ =~= campaign_widgets(*i));
    v
}

fn list_machinima() -> (r: Vec<Widget>)
    ensures
        r@ == machinima_widgets(),
{
    let mut v: Vec<Widget> = Vec::new();
    v.push(Widget::Check(Check::FreeCam));
    v.push(Widget::Check(Check::MouseLook));
    v.push(Widget::Slider(Slider::Fov));
    v.push(Widget::Slider(Slider::Time));
    v.push(Widget::Button(Action::Run(Cmd::Slomo(ONE))));
    v.push(Widget::Button(Action::FovReset));
    v.push(Widget::Button(Action::Run(Cmd::CineOn)));
    v.push(Widget::Button(Action::Run(Cmd::CineOff)));
    v.push(Widget::Button(Action::Run(Cmd::Pause)));
    v.push(Widget::Button(Action::Run(Cmd::SimFreeze)));
    v.push(Widget::Button(Action::Run(Cmd::SimUnfreeze)));
    v.push(Widget::Button(Action::Run(Cmd::DiagTime)));
    assert(v@ =~= machinima_widgets());
    v
}

fn list_timeline(count: usize, playing: bool) -> (r: Vec<Widget>)
    ensures
        r@ == timeline_widgets(count, playing),
{
    let mut v: Vec<Widget> = Vec::new();
    v.push(Widget::Track);
    v.push(Widget::Keyframes(count, playing));
    v.push(Widget::Button(Action::AddKeyframe));
    v.push(Widget::Button(Action::PlayStop));
    v.push(Widget::Button(Action::ClearPath));
    v.push(Widget::Button(Action::KeyframeList));
    assert(v@ =~= timeline_widgets(count, playing));
    v
}

fn list_character() -> (r: Vec<Widget>)
    ensures
        r@ == character_widgets(),
{
    let mut v: Vec<Widget> = Vec::new();
    v.push(Widget::Button(Action::Run(Cmd::PawnHide)));
    v.push(Widget::Button(Action::Run(Cmd::PawnShow)));
    v.push(Widget::Button(Action::Run(Cmd::PawnNoCol)));
    v.push(Widget::Button(Action::Run(Cmd::PawnCol)));
    v.push(Widget::Button(Action::Run(Cmd::ScaleGiant)));
    v.push(Widget::Button(Action::Run(Cmd::ScaleTiny)));
    v.push(Widget::Button(Action::Run(Cmd::ScaleNormal)));
    v.push(Widget::Button(Action::Run(Cmd::Teleport)));
    v.push(Widget::Check(Check::Flashlight));
    assert(v@ =~= character_widgets());
    v
}

fn list_fx() -> (r: Vec<Widget>)
    ensures
        r@ == fx_widgets(),
{
    let mut v: Vec<Widget> = Vec::new();
    v.push(Widget::Button(Action::Run(Cmd::CamoOn)));
    v.push(Widget::Button(Action::Run(Cmd::CamoOff)));
    v.push(Widget::Button(Action::Run(Cmd::OvershieldOn)));
    v.push(Widget::Button(Action::Run(Cmd::OvershieldOff)));
    v.push(Widget::Button(Action::Run(Cmd::ShieldBreak)));
    v.push(Widget::Button(Action::Run(Cmd::RechargePP)));
    v.push(Widget::Button(Action::Run(Cmd::RadialBlur)));
    v.push(Widget::Button(Action::Run(Cmd::Breath)));
    v.push(Widget::Button(Action::Run(Cmd::BloodHuman)));
    v.push(Widget::Button(Action::Run(Cmd::BloodCov)));
    v.push(Widget::Button(Action::Run(Cmd::BloodGrunt)));
    v.push(Widget::Button(Action::Run(Cmd::BloodBrute)));
    assert(v@ =~= fx_widgets());
    v
}

fn list_skulls() -> (r: Vec<Widget>)
    ensures
        r@ == skull_widgets(),
{
    let mut v: Vec<Widget> = Vec::new();
    let mut i: usize = 0;
    while i < SKULLS
        invariant
            i <= SKULLS,
            v@ == skull_widgets().take(i as int),
        decreases SKULLS - i,
    {
        v.push(Widget::Check(Check::Skull(i)));
        i += 1;
        assert(v@ =~= skull_widgets().take(i as int));
    }
    assert(skull_widgets().take(SKULLS as int) =~= skull_widgets());
    v
}

/// The widgets of a section, from top to bottom.
pub fn widgets(s: Section, b: &Board, ring: &Ring, info: &Info, path: &Path) -> (r: Vec<Widget>)
    ensures
        r@ == section_widgets(s, *b, *ring, *info, *path),
{
    match s {
        Section::Stats => list_stats(&b.stats, ring.cur),
        Section::Campaign => list_campaign(info),
        Section::Machinima => list_machinima(),
        Section::Timeline => list_timeline(path.kf.len(), path.playing),
        Section::Character => list_character(),
        Section::PawnFx => list_fx(),
        Section::Skulls => list_skulls(),
        Section::Ui => {
            let mut v: Vec<Widget> = Vec::new();
            v.push(Widget::Button(Action::Run(Cmd::ImguiInput)));
            v.push(Widget::Button(Action::Console));
            assert(v@ =~= section_widgets(s, *b, *ring, *info, *path));
            v
        },
    }
}

// ---------------- one frame ----------------

/// Where the drawing of the panel is. Each place but the last is one thing to draw.
#[derive(Clone, Copy, Debug, PartialEq, Eq, Structural)]
pub enum Place {
    /// Begin the panel's window. Answered with whether there is anything of it to see.
    Begin,
    /// The header of a section. Answered with whether the section is open.
    Header(usize),
    /// A widget of a section, with its place in the section.
    Item(usize, usize),
    /// End the panel's window, of which there was nothing to see.
    Skip,
    /// End the panel's window.
    End,
    KeyframeWindow,
    ConsoleWindow,
    Done,
}

/// What comes behind section `i`.
pub open spec fn behind(i: usize) -> Place {
    if i + 1 < SECTIONS {
        Place::Header((i + 1) as usize)
    } else {
        Place::End
    }
}

/// What is drawn next. `yes` answers the place that was drawn, and `n` is the number of widgets
/// of its section.
pub open spec fn next_place(at: Place, yes: bool, n: usize, p: Panel) -> Place {
    match at {
        Place::Begin => if yes {
            Place::Header(0)
        } else {
            Place::Skip
        },
        Place::Header(i) => if yes && n > 0 {
            Place::Item(i, 0)
        } else {
            behind(i)
        },
        Place::Item(i, k) => if k + 1 < n {
            Place::Item(i, (k + 1) as usize)
        } else {
            behind(i)
        },
        Place::End => if p.show_keyframes {
            Place::KeyframeWindow
        } else if p.show_console {
            Place::ConsoleWindow
        } else {
            Place::Done
        },
        Place::KeyframeWindow => if p.show_console {
            Place::ConsoleWindow
        } else {
            Place::Done
        },
        Place::Skip | Place::ConsoleWindow | Place::Done => Place::Done,
    }
}

fn after_section(i: usize) -> (r: Place)
    ensures
        r == behind(i),
{
    if i < SECTIONS - 1 {
        Place::Header(i + 1)
    } else {
        Place::End
    }
}

/// Draw the panel, one step at a time: from what was drawn and its answer to what is drawn next.
/// The two other windows are drawn behind the panel, where they are open by then.
pub fn draw_panel(at: Place, yes: bool, n: usize, p: &Panel) -> (r: Place)
    ensures
        r == next_place(at, yes, n, *p),
{
    match at {
        Place::Begin => if yes {
            Place::Header(0)
        } else {
            Place::Skip
        },
        Place::Header(i) => if yes && n > 0 {
            Place::Item(i, 0)
        } else {
            after_section(i)
        },
        Place::Item(i, k) => if n > 0 && k < n - 1 {
            Place::Item(i, k + 1)
        } else {
            after_section(i)
        },
        Place::End => if p.show_keyframes {
            Place::KeyframeWindow
        } else if p.show_console {
            Place::ConsoleWindow
        } else {
            Place::Done
        },
        Place::KeyframeWindow => if p.show_console {
            Place::ConsoleWindow
        } else {
            Place::Done
        },
        Place::Skip | Place::ConsoleWindow | Place::Done => Place::Done,
    }
}

/// The panel's window was begun and not ended.
pub open spec fn in_window(at: Place) -> bool {
    at is Header || at is Item || at is Skip || at is End
}

/// A place that the drawing can be at, by a number that grows from place to place.
pub open spec fn place_number(at: Place) -> int {
    match at {
        Place::Begin => 0,
        Place::Header(i) => 1 + 64 * i,
        Place::Item(i, k) => 2 + 64 * i + k,
        Place::Skip => 1000,
        Place::End => 1001,
        Place::KeyframeWindow => 1002,
        Place::ConsoleWindow => 1003,
        Place::Done => 1004,
    }
}

/// Drawing moves on from place to place and comes to an end, whatever the answers are. A window
/// that was begun is left only by ending it, and it is ended once.
pub proof fn law_drawing_ends(at: Place, yes: bool, n: usize, p: Panel)
    requires
        !(at is Done),
        n <= 62,
        at matches Place::Header(i) ==> i < SECTIONS,
        at matches Place::Item(i, k) ==> i < SECTIONS && k < n,
    ensures
        ({
            let to = next_place(at, yes, n, p);
            &&& place_number(at) < place_number(to)
            &&& to matches Place::Header(i) ==> i < SECTIONS
            &&& to matches Place::Item(i, k) ==> i < SECTIONS && k < n
            &&& in_window(at) && !(at is Skip) && !(at is End) ==> in_window(to)
            &&& at is Begin ==> in_window(to)
            &&& at is Skip || at is End ==> !in_window(to)
            &&& !in_window(at) && !(at is Begin) ==> !in_window(to)
        }),
{
}

/// No section has more widgets than drawing allows for.
pub proof fn law_sections_fit(s: Section, b: Board, ring: Ring, info: Info, path: Path)
    ensures
        0 < section_widgets(s, b, ring, info, path).len() <= 62,
{
}

/// The part that a widget is, where its drawing is guarded on its own.
pub open spec fn guarded_part(w: Widget) -> Option<Part> {
    match w {
        Widget::Health(_) => Some(Part::HealthBar),
        Widget::Shield(_) => Some(Part::ShieldBar),
        Widget::FpsGraph => Some(Part::FpsGraph),
        Widget::Track => Some(Part::Timeline),
        Widget::Check(Check::FreeCam) => Some(Part::FreeCam),
        Widget::Check(Check::MouseLook) => Some(Part::MouseLook),
        Widget::Check(Check::Flashlight) => Some(Part::Flashlight),
        Widget::Check(Check::Skull(_)) => Some(Part::Skull),
        Widget::Slider(Slider::Fov) => Some(Part::FovSlider),
        Widget::Slider(Slider::Time) => Some(Part::TimeSlider),
        _ => None,
    }
}

/// The part that a widget is, where its drawing is guarded on its own.
pub fn part_of(w: Widget) -> (r: Option<Part>)
    ensures
        r == guarded_part(w),
{
    match w {
        Widget::Health(_) => Some(Part::HealthBar),
        Widget::Shield(_) => Some(Part::ShieldBar),
        Widget::FpsGraph => Some(Part::FpsGraph),
        Widget::Track => Some(Part::Timeline),
        Widget::Check(Check::FreeCam) => Some(Part::FreeCam),
        Widget::Check(Check::MouseLook) => Some(Part::MouseLook),
        Widget::Check(Check::Flashlight) => Some(Part::Flashlight),
        Widget::Check(Check::Skull(_)) => Some(Part::Skull),
        Widget::Slider(Slider::Fov) => Some(Part::FovSlider),
        Widget::Slider(Slider::Time) => Some(Part::TimeSlider),
        _ => None,
    }
}

/// The text of a widget that is a line of text. The frame rate is the host's to format.
pub open spec fn line_text(w: Widget, info: Info) -> Option<Seq<char>> {
    match w {
        Widget::Counting => Some("Enemies  counting..."@),
        Widget::Enemies(alive, total) => Some(
            "Enemies  "@ + sdec(alive as int) + " alive / "@ + sdec(total as int) + " total"@,
        ),
        Widget::NoPawn => Some("waiting for pawn..."@),
        Widget::Loading => Some("mission: (loading)"@),
        Widget::Mission => Some("Mission: "@ + info.level@),
        Widget::Difficulty => Some("Difficulty: "@ + info.difficulty@),
        Widget::Checkpoint(n) => Some("Checkpoint: "@ + sdec(n as int)),
        Widget::Segment(n) => Some("Segment: "@ + sdec(n as int)),
        Widget::Keyframes(n, playing) => Some(
            dec(n as nat) + " keyframes   "@ + if playing {
                "playing"@
            } else {
                "stopped"@
            },
        ),
        _ => None,
    }
}

fn joined(a: &str, b: &str) -> (r: String)
    ensures
        r@ == a@ + b@,
{
    let mut out = text::owned(a);
    out.append(b);
    out
}

/// A text can be drawn: a zero character would end it early.
pub open spec fn drawable(s: Seq<char>) -> bool {
    !s.contains('\0')
}

/// Whether a text can be drawn.
pub fn can_draw(s: &str) -> (r: bool)
    ensures
        r == drawable(s@),
{
    let v = text::chars_of(s);
    let mut i: usize = 0;
    while i < v.len()
        invariant
            i <= v.len(),
            v@ == s@,
            forall|j: int| 0 <= j < i ==> v@[j] != '\0',
        decreases v.len() - i,
    {
        if v[i] == '\0' {
            assert(s@[i as int] == '\0');
            return false;
        }
        i += 1;
    }
    true
}

fn text_of(w: Widget, info: &Info) -> (r: Option<String>)
    ensures
        r is Some == line_text(w, *info) is Some,
        r matches Some(s) ==> line_text(w, *info) == Some(s@),
{
    match w {
        Widget::Counting => Some(text::owned("Enemies  counting...")),
        Widget::Enemies(alive, total) => {
            let mut out = joined("Enemies  ", text::signed_decimal(alive).as_str());
            out.append(" alive / ");
            out.append(text::signed_decimal(total).as_str());
            out.append(" total");
            Some(out)
        },
        Widget::NoPawn => Some(text::owned("waiting for pawn...")),
        Widget::Loading => Some(text::owned("mission: (loading)")),
        Widget::Mission => Some(joined("Mission: ", info.level.as_str())),
        Widget::Difficulty => Some(joined("Difficulty: ", info.difficulty.as_str())),
        Widget::Checkpoint(n) => Some(joined("Checkpoint: ", text::signed_decimal(n).as_str())),
        Widget::Segment(n) => Some(joined("Segment: ", text::signed_decimal(n).as_str())),
        Widget::Keyframes(n, playing) => {
            let mut out = joined(text::decimal(n as u64).as_str(), " keyframes   ");
            if playing {
                out.append("playing");
            } else {
                out.append("stopped");
            }
            Some(out)
        },
        _ => None,
    }
}

/// The line of text to draw for a widget, if it is one that can be drawn.
pub fn line(w: Widget, info: &Info) -> (r: Option<String>)
    ensures
        r is Some == (line_text(w, *info) is Some && drawable(line_text(w, *info)->0)),
        r matches Some(s) ==> line_text(w, *info) == Some(s@),
{
    match text_of(w, info) {
        None => None,
        Some(s) => if can_draw(s.as_str()) {
            Some(s)
        } else {
            None
        },
    }
}

/// How far a bar is filled: `ratio` is the percentage over a hundred. A percentage that is no
/// number leaves it empty.
pub open spec fn filled(percent: u32, ratio: u32) -> u32 {
    if finite32(percent) {
        clamped32(ratio, 0, ONE)
    } else {
        0
    }
}

/// How far a bar is filled: `ratio` is the percentage over a hundred. A percentage that is no
/// number leaves it empty.
pub fn bar_fill(percent: u32, ratio: u32) -> (r: u32)
    ensures
        r == filled(percent, ratio),
{
    if is_finite32(percent) {
        clamp32(ratio, 0, ONE)
    } else {
        0
    }
}

/// The label of a button. Two of them tell what they would do next. A command without a button
/// has none.
pub open spec fn label_of(a: Action, p: Panel) -> Seq<char> {
    match a {
        Action::Run(Cmd::DiagMission) => "Diag: mission"@,
        Action::Run(Cmd::Slomo(_)) => "Time reset (1x)"@,
        Action::FovReset => "FOV reset"@,
        Action::Run(Cmd::CineOn) => "Cinematic ON (hide HUD/player)"@,
        Action::Run(Cmd::CineOff) => "Cinematic OFF"@,
        Action::Run(Cmd::Pause) => "Pause toggle"@,
        Action::Run(Cmd::SimFreeze) => "Freeze sim (Blam)"@,
        Action::Run(Cmd::SimUnfreeze) => "Resume sim (Blam)"@,
        Action::Run(Cmd::DiagTime) => "Diag: time timer"@,
        Action::Run(Cmd::PawnHide) => "Hide body"@,
        Action::Run(Cmd::PawnShow) => "Show body"@,
        Action::Run(Cmd::PawnNoCol) => "Collision OFF"@,
        Action::Run(Cmd::PawnCol) => "Collision ON"@,
        Action::Run(Cmd::ScaleGiant) => "Giant"@,
        Action::Run(Cmd::ScaleTiny) => "Tiny"@,
        Action::Run(Cmd::ScaleNormal) => "Normal size"@,
        Action::Run(Cmd::Teleport) => "Teleport to camera"@,
        Action::Run(Cmd::CamoOn) => "Active Camo ON"@,
        Action::Run(Cmd::CamoOff) => "Active Camo OFF"@,
        Action::Run(Cmd::OvershieldOn) => "Overshield ON"@,
        Action::Run(Cmd::OvershieldOff) => "Overshield OFF"@,
        Action::Run(Cmd::ShieldBreak) => "Shield-break FX"@,
        Action::Run(Cmd::RechargePP) => "Recharge FX"@,
        Action::Run(Cmd::RadialBlur) => "Radial blur"@,
        Action::Run(Cmd::Breath) => "Breath fog"@,
        Action::Run(Cmd::BloodHuman) => "Blood: Human"@,
        Action::Run(Cmd::BloodCov) => "Blood: Covenant"@,
        Action::Run(Cmd::BloodGrunt) => "Blood: Grunt"@,
        Action::Run(Cmd::BloodBrute) => "Blood: Brute"@,
        Action::Run(Cmd::ImguiInput) => "Toggle ImGui Input (cursor)"@,
        Action::AddKeyframe => "Add Keyframe"@,
        Action::PlayStop => "Play / Stop"@,
        Action::ClearPath => "Clear"@,
        Action::KeyframeList => if p.show_keyframes {
            "Hide keyframe list"@
        } else {
            "Show keyframe list"@
        },
        Action::Console => if p.show_console {
            "Hide console"@
        } else {
            "Show console"@
        },
        Action::Run(_) => ""@,
    }
}

/// The label of a button.
pub fn label(a: Action, p: &Panel) -> (r: &'static str)
    ensures
        r@ == label_of(a, *p),
{
    match a {
        Action::Run(Cmd::DiagMission) => "Diag: mission",
        Action::Run(Cmd::Slomo(_)) => "Time reset (1x)",
        Action::FovReset => "FOV reset",
        Action::Run(Cmd::CineOn) => "Cinematic ON (hide HUD/player)",
        Action::Run(Cmd::CineOff) => "Cinematic OFF",
        Action::Run(Cmd::Pause) => "Pause toggle",
        Action::Run(Cmd::SimFreeze) => "Freeze sim (Blam)",
        Action::Run(Cmd::SimUnfreeze) => "Resume sim (Blam)",
        Action::Run(Cmd::DiagTime) => "Diag: time timer",
        Action::Run(Cmd::PawnHide) => "Hide body",
        Action::Run(Cmd::PawnShow) => "Show body",
        Action::Run(Cmd::PawnNoCol) => "Collision OFF",
        Action::Run(Cmd::PawnCol) => "Collision ON",
        Action::Run(Cmd::ScaleGiant) => "Giant",
        Action::Run(Cmd::ScaleTiny) => "Tiny",
        Action::Run(Cmd::ScaleNormal) => "Normal size",
        Action::Run(Cmd::Teleport) => "Teleport to camera",
        Action::Run(Cmd::CamoOn) => "Active Camo ON",
        Action::Run(Cmd::CamoOff) => "Active Camo OFF",
        Action::Run(Cmd::OvershieldOn) => "Overshield ON",
        Action::Run(Cmd::OvershieldOff) => "Overshield OFF",
        Action::Run(Cmd::ShieldBreak) => "Shield-break FX",
        Action::Run(Cmd::RechargePP) => "Recharge FX",
        Action::Run(Cmd::RadialBlur) => "Radial blur",
        Action::Run(Cmd::Breath) => "Breath fog",
        Action::Run(Cmd::BloodHuman) => "Blood: Human",
        Action::Run(Cmd::BloodCov) => "Blood: Covenant",
        Action::Run(Cmd::BloodGrunt) => "Blood: Grunt",
        Action::Run(Cmd::BloodBrute) => "Blood: Brute",
        Action::Run(Cmd::ImguiInput) => "Toggle ImGui Input (cursor)",
        Action::AddKeyframe => "Add Keyframe",
        Action::PlayStop => "Play / Stop",
        Action::ClearPath => "Clear",
        Action::KeyframeList => if p.show_keyframes {
            "Hide keyframe list"
        } else {
            "Show keyframe list"
        },
        Action::Console => if p.show_console {
            "Hide console"
        } else {
            "Show console"
        },
        Action::Run(_) => "",
    }
}

/// The commands that wait after a button was used.
pub open spec fn pressed_commands(a: Action, q: Seq<Cmd>) -> Seq<Cmd> {
    match a {
        Action::Run(x) => q.push(x),
        _ => q,
    }
}

/// The panel after a button was used.
pub open spec fn pressed_panel(a: Action, p: Panel) -> Panel {
    match a {
        Action::KeyframeList => Panel { show_keyframes: !p.show_keyframes, ..p },
        Action::Console => Panel { show_console: !p.show_console, ..p },
        _ => p,
    }
}

/// The keyframes after a button was used.
pub open spec fn pressed_keyframes(a: Action, kf: Seq<Kf>, c: CamData) -> Seq<Kf> {
    match a {
        Action::AddKeyframe => captured(kf, c),
        Action::ClearPath => Seq::<Kf>::empty(),
        _ => kf,
    }
}

/// Whether the path plays, the playhead, and the camera, after a button was used.
pub open spec fn pressed_view(a: Action, kf: Seq<Kf>, playing: bool, t: u64, c: CamData) -> (
    bool,
    u64,
    CamData,
) {
    let plays = a is PlayStop && kf.len() >= 2;
    (
        if plays {
            !playing
        } else {
            playing && !(a is ClearPath)
        },
        if plays {
            0
        } else {
            t
        },
        if plays && !playing {
            CamData { freecam: true, ..c }
        } else if a is FovReset {
            CamData { fov: DEFAULT_FOV, fov_locked: false, ..c }
        } else {
            c
        },
    )
}

/// Use a button.
pub fn press(a: Action, p: &mut Panel, q: &mut Queue, path: &mut Path, c: &mut CamData)
    requires
        old(q).wf(),
        old(path).wf(),
    ensures
        final(q).wf(),
        final(q)@ == pressed_commands(a, old(q)@),
        *final(p) == pressed_panel(a, *old(p)),
        final(path).wf(),
        final(path).kf@ == pressed_keyframes(a, old(path).kf@, *old(c)),
        final(path).dur == old(path).dur,
        (final(path).playing, final(path).t, *final(c)) == pressed_view(
            a,
            old(path).kf@,
            old(path).playing,
            old(path).t,
            *old(c),
        ),
{
    match a {
        Action::Run(x) => cmd::push(q, x),
        Action::FovReset => {
            c.fov = DEFAULT_FOV;
            c.fov_locked = false;
        },
        Action::AddKeyframe => {
            crate::paths::add(path, c);
        },
        Action::PlayStop => {
            paths::toggle_play(path, c);
        },
        Action::ClearPath => paths::clear(path),
        Action::KeyframeList => {
            p.show_keyframes = !p.show_keyframes;
        },
        Action::Console => {
            p.show_console = !p.show_console;
        },
    }
}

/// What a checkbox shows.
pub open spec fn check_state(k: Check, p: Panel, c: CamData) -> bool {
    match k {
        Check::FreeCam => c.freecam,
        Check::MouseLook => c.mouse,
        Check::Flashlight => p.flashlight,
        Check::Skull(i) => p.skulls[i as int],
    }
}

/// What a checkbox shows.
pub fn checked(k: Check, p: &Panel, c: &CamData) -> (r: bool)
    requires
        k matches Check::Skull(i) ==> i < SKULLS,
    ensures
        r == check_state(k, *p, *c),
{
    match k {
        Check::FreeCam => c.freecam,
        Check::MouseLook => c.mouse,
        Check::Flashlight => p.flashlight,
        Check::Skull(i) => p.skulls[i],
    }
}

/// A truth value as the script interpreter reads it.
pub open spec fn word(on: bool) -> Seq<char> {
    if on {
        "true"@
    } else {
        "false"@
    }
}

fn word_of(on: bool) -> (r: &'static str)
    ensures
        r@ == word(on),
{
    if on {
        "true"
    } else {
        "false"
    }
}

/// The command lines that a change of a checkbox queues.
pub open spec fn check_lines(k: Check, on: bool) -> Seq<Seq<char>> {
    match k {
        Check::Flashlight => seq!["hs:unit_set_integrated_flashlight (player0) "@ + word(on)],
        Check::Skull(i) => if i == NIGHT_VISION {
            Seq::empty()
        } else {
            seq!["hs:skull_enable "@ + skull_name(i) + " "@ + word(on)]
        },
        _ => Seq::empty(),
    }
}

/// The commands that a change of a checkbox queues. Night vision is switched directly: the
/// script interpreter does not switch it off.
pub open spec fn check_commands(k: Check, on: bool) -> Seq<Cmd> {
    match k {
        Check::FreeCam => seq![
            if on {
                Cmd::Freeze
            } else {
                Cmd::Unfreeze
            },
        ],
        Check::Skull(i) => if i == NIGHT_VISION {
            seq![Cmd::NightVision(on)]
        } else {
            Seq::empty()
        },
        _ => Seq::empty(),
    }
}

/// The camera after a change of a checkbox.
pub open spec fn cam_checked(k: Check, on: bool, c: CamData) -> CamData {
    match k {
        Check::FreeCam => CamData { freecam: on, seed: c.seed || on, ..c },
        Check::MouseLook => CamData { mouse: on, ..c },
        _ => c,
    }
}

/// What a change of a checkbox leaves of the panel: the flashlight or one skull changes.
pub open spec fn panel_checked(k: Check, on: bool, before: Panel, after: Panel) -> bool {
    &&& after == (Panel {
        flashlight: if k is Flashlight {
            on
        } else {
            before.flashlight
        },
        skulls: after.skulls,
        ..before
    })
    &&& after.skulls@ == match k {
        Check::Skull(i) => before.skulls@.update(i as int, on),
        _ => before.skulls@,
    }
}

/// A checkbox was changed to `on`.
pub fn check(k: Check, on: bool, p: &mut Panel, q: &mut Queue, lines: &mut Lines, c: &mut CamData)
    requires
        old(q).wf(),
        k matches Check::Skull(i) ==> i < SKULLS,
    ensures
        final(q).wf(),
        final(q)@ == old(q)@ + check_commands(k, on),
        final(lines)@ == old(lines)@ + check_lines(k, on),
        *final(c) == cam_checked(k, on, *old(c)),
        panel_checked(k, on, *old(p), *final(p)),
{
    let ghost q0 = q@;
    let ghost l0 = lines@;
    match k {
        Check::FreeCam => {
            c.freecam = on;
            if on {
                c.seed = true;
            }
            let x = if on {
                Cmd::Freeze
            } else {
                Cmd::Unfreeze
            };
            cmd::push(q, x);
        },
        Check::MouseLook => {
            c.mouse = on;
        },
        Check::Flashlight => {
            p.flashlight = on;
            let l = joined("hs:unit_set_integrated_flashlight (player0) ", word_of(on));
            console::submit(lines, l);
        },
        Check::Skull(i) => {
            let mut a = p.skulls;
            a[i] = on;
            p.skulls = a;
            if i == NIGHT_VISION {
                cmd::push(q, Cmd::NightVision(on));
            } else {
                let mut l = joined("hs:skull_enable ", skull(i).1);
                l.append(" ");
                l.append(word_of(on));
                console::submit(lines, l);
            }
        },
    }
    assert(q@ =~= q0 + check_commands(k, on));
    assert(lines@ =~= l0 + check_lines(k, on));
}

/// The least and the greatest value of a slider.
pub open spec fn range_of(s: Slider) -> (u32, u32) {
    match s {
        Slider::Fov => (NARROWEST, WIDEST),
        Slider::Time => (SLOWEST, FASTEST),
    }
}

/// The least and the greatest value of a slider.
pub fn range(s: Slider) -> (r: (u32, u32))
    ensures
        r == range_of(s),
{
    match s {
        Slider::Fov => (NARROWEST, WIDEST),
        Slider::Time => (SLOWEST, FASTEST),
    }
}

/// The commands that wait and the camera, after a slider was moved to `value`.
pub open spec fn slid(s: Slider, value: u32, q: Seq<Cmd>, c: CamData) -> (Seq<Cmd>, CamData) {
    match s {
        Slider::Fov => (q, CamData { fov: value, fov_locked: true, ..c }),
        Slider::Time => (q.push(Cmd::Slomo(value)), c),
    }
}

/// A slider was moved to `value`. Moving the field of view locks it.
pub fn slide(s: Slider, value: u32, q: &mut Queue, c: &mut CamData)
    requires
        old(q).wf(),
    ensures
        final(q).wf(),
        (final(q)@, *final(c)) == slid(s, value, old(q)@, *old(c)),
{
    match s {
        Slider::Fov => {
            c.fov = value;
            c.fov_locked = true;
        },
        Slider::Time => cmd::push(q, Cmd::Slomo(value)),
    }
}

/// A checkbox shows what it was last changed to, and changing one changes no other: the free
/// camera, mouse-look, the flashlight and each skull are independent.
pub proof fn law_checkboxes_independent(
    k: Check,
    other: Check,
    on: bool,
    before: Panel,
    after: Panel,
    cam: CamData,
)
    requires
        k matches Check::Skull(i) ==> i < SKULLS,
        other matches Check::Skull(i) ==> i < SKULLS,
        panel_checked(k, on, before, after),
    ensures
        check_state(k, after, cam_checked(k, on, cam)) == on,
        other != k ==> check_state(other, after, cam_checked(k, on, cam)) == check_state(
            other,
            before,
            cam,
        ),
{
}

// ---------------- skulls ----------------

/// The label of a skull.
pub open spec fn skull_label(i: usize) -> Seq<char> {
    match i {
        0 => "Third Person"@,
        1 => "Night Vision"@,
        2 => "Bandanna"@,
        3 => "Adaptation"@,
        4 => "Angry"@,
        5 => "Armistice"@,
        6 => "Assassin"@,
        7 => "Birthday Party"@,
        8 => "Black Eye"@,
        9 => "Blind"@,
        10 => "Bonded Pair"@,
        11 => "Boom"@,
        12 => "Boots Off The Ground"@,
        13 => "Catch"@,
        14 => "Efficient"@,
        15 => "Eye Patch"@,
        16 => "Famine"@,
        17 => "Floor Is Lava"@,
        18 => "Fog"@,
        19 => "Foreign"@,
        20 => "Fragile"@,
        21 => "Ghost"@,
        22 => "Give And Take"@,
        23 => "Grunt Birthday Party"@,
        24 => "Grunt Funeral"@,
        25 => "Hip Fire"@,
        26 => "Iron"@,
        27 => "IWHBYD"@,
        28 => "Jacked"@,
        29 => "Johnny Ammo Tree"@,
        30 => "Leadhead"@,
        31 => "Lights Out"@,
        32 => "Magnified"@,
        33 => "Malfunction"@,
        34 => "Masterblaster"@,
        35 => "Mythic"@,
        36 => "Pinata"@,
        37 => "Pop"@,
        38 => "Recession"@,
        39 => "Reload"@,
        40 => "Riskrun"@,
        41 => "Scarab"@,
        42 => "So Angry"@,
        43 => "Spore Visibility"@,
        44 => "Stow And Grow"@,
        45 => "Superman"@,
        46 => "Swarm"@,
        47 => "Temperamental"@,
        48 => "That's Just Wrong"@,
        49 => "They Come Back"@,
        50 => "Thunderstorm"@,
        51 => "Tilt"@,
        _ => "Tough Luck"@,
    }
}

/// The name of a skull, as the script interpreter knows it.
pub open spec fn skull_name(i: usize) -> Seq<char> {
    match i {
        0 => "skull_third_person"@,
        1 => "skull_night_vision"@,
        2 => "skull_bandanna"@,
        3 => "skull_adaptation"@,
        4 => "skull_angry"@,
        5 => "skull_armistice"@,
        6 => "skull_assassin"@,
        7 => "skull_birthday_party"@,
        8 => "skull_black_eye"@,
        9 => "skull_blind"@,
        10 => "skull_bonded_pair"@,
        11 => "skull_boom"@,
        12 => "skull_boots_off_the_ground"@,
        13 => "skull_catch"@,
        14 => "skull_efficient"@,
        15 => "skull_eye_patch"@,
        16 => "skull_famine"@,
        17 => "skull_floor_is_lava"@,
        18 => "skull_fog"@,
        19 => "skull_foreign"@,
        20 => "skull_fragile"@,
        21 => "skull_ghost"@,
        22 => "skull_give_and_take"@,
        23 => "skull_grunt_birthday_party"@,
        24 => "skull_grunt_funeral"@,
        25 => "skull_hip_fire"@,
        26 => "skull_iron"@,
        27 => "skull_iwhbyd"@,
        28 => "skull_jacked"@,
        29 => "skull_johnny_ammo_tree"@,
        30 => "skull_leadhead"@,
        31 => "skull_lights_out"@,
        32 => "skull_magnified"@,
        33 => "skull_malfunction"@,
        34 => "skull_masterblaster"@,
        35 => "skull_mythic"@,
        36 => "skull_pinata"@,
        37 => "skull_pop"@,
        38 => "skull_recession"@,
        39 => "skull_reload"@,
        40 => "skull_riskrun"@,
        41 => "skull_scarab"@,
        42 => "skull_so_angry"@,
        43 => "skull_spore_visibility"@,
        44 => "skull_stow_and_grow"@,
        45 => "skull_superman"@,
        46 => "skull_swarm"@,
        47 => "skull_temperamental"@,
        48 => "skull_thats_just_wrong"@,
        49 => "skull_they_come_back"@,
        50 => "skull_thunderstorm"@,
        51 => "skull_tilt"@,
        _ => "skull_tough_luck"@,
    }
}

/// The label and the name of a skull.
pub fn skull(i: usize) -> (r: (&'static str, &'static str))
    requires
        i < SKULLS,
    ensures
        r.0@ == skull_label(i),
        r.1@ == skull_name(i),
{
    match i {
        0 => ("Third Person", "skull_third_person"),
        1 => ("Night Vision", "skull_night_vision"),
        2 => ("Bandanna", "skull_bandanna"),
        3 => ("Adaptation", "skull_adaptation"),
        4 => ("Angry", "skull_angry"),
        5 => ("Armistice", "skull_armistice"),
        6 => ("Assassin", "skull_assassin"),
        7 => ("Birthday Party", "skull_birthday_party"),
        8 => ("Black Eye", "skull_black_eye"),
        9 => ("Blind", "skull_blind"),
        10 => ("Bonded Pair", "skull_bonded_pair"),
        11 => ("Boom", "skull_boom"),
        12 => ("Boots Off The Ground", "skull_boots_off_the_ground"),
        13 => ("Catch", "skull_catch"),
        14 => ("Efficient", "skull_efficient"),
        15 => ("Eye Patch", "skull_eye_patch"),
        16 => ("Famine", "skull_famine"),
        17 => ("Floor Is Lava", "skull_floor_is_lava"),
        18 => ("Fog", "skull_fog"),
        19 => ("Foreign", "skull_foreign"),
        20 => ("Fragile", "skull_fragile"),
        21 => ("Ghost", "skull_ghost"),
        22 => ("Give And Take", "skull_give_and_take"),
        23 => ("Grunt Birthday Party", "skull_grunt_birthday_party"),
        24 => ("Grunt Funeral", "skull_grunt_funeral"),
        25 => ("Hip Fire", "skull_hip_fire"),
        26 => ("Iron", "skull_iron"),
        27 => ("IWHBYD", "skull_iwhbyd"),
        28 => ("Jacked", "skull_jacked"),
        29 => ("Johnny Ammo Tree", "skull_johnny_ammo_tree"),
        30 => ("Leadhead", "skull_leadhead"),
        31 => ("Lights Out", "skull_lights_out"),
        32 => ("Magnified", "skull_magnified"),
        33 => ("Malfunction", "skull_malfunction"),
        34 => ("Masterblaster", "skull_masterblaster"),
        35 => ("Mythic", "skull_mythic"),
        36 => ("Pinata", "skull_pinata"),
        37 => ("Pop", "skull_pop"),
        38 => ("Recession", "skull_recession"),
        39 => ("Reload", "skull_reload"),
        40 => ("Riskrun", "skull_riskrun"),
        41 => ("Scarab", "skull_scarab"),
        42 => ("So Angry", "skull_so_angry"),
        43 => ("Spore Visibility", "skull_spore_visibility"),
        44 => ("Stow And Grow", "skull_stow_and_grow"),
        45 => ("Superman", "skull_superman"),
        46 => ("Swarm", "skull_swarm"),
        47 => ("Temperamental", "skull_temperamental"),
        48 => ("That's Just Wrong", "skull_thats_just_wrong"),
        49 => ("They Come Back", "skull_they_come_back"),
        50 => ("Thunderstorm", "skull_thunderstorm"),
        51 => ("Tilt", "skull_tilt"),
        _ => ("Tough Luck", "skull_tough_luck"),
    }
}

// ---------------- the other windows ----------------

/// The window with the keyframes was drawn, and is `open` still.
pub fn keyframes_drawn(p: &mut Panel, open: bool)
    ensures
        *final(p) == (Panel { show_keyframes: old(p).show_keyframes && open, ..*old(p) }),
{
    if !open {
        p.show_keyframes = false;
    }
}

/// The console window was drawn, and is `open` still.
pub fn console_drawn(p: &mut Panel, open: bool)
    ensures
        *final(p) == (Panel { show_console: old(p).show_console && open, ..*old(p) }),
{
    if !open {
        p.show_console = false;
    }
}

/// The current window of the drawing library, 0 if there is none.
pub open spec fn window(m: Bytes, base: u64) -> Option<u64> {
    match u64_at(m, off(base, GIMGUI_PTR)) {
        None => None,
        Some(g) => if g == 0 {
            Some(0)
        } else {
            u64_at(m, off(g, IMGUI_CTX_CURRENT_WINDOW))
        },
    }
}

fn current_window(m: &mut Memory, base: u64) -> (r: Option<u64>)
    ensures
        r == window(old(m)@, base),
        final(m)@ == old(m)@,
{
    let g = m.read_u64(base.wrapping_add(GIMGUI_PTR))?;
    if g == 0 {
        return Some(0);
    }
    m.read_u64(g.wrapping_add(IMGUI_CTX_CURRENT_WINDOW))
}

/// How far the current window is scrolled, and how far it can be.
pub open spec fn scroll_of(m: Bytes, base: u64) -> Option<Option<(u32, u32)>> {
    match window(m, base) {
        None => None,
        Some(0) => Some(None),
        Some(w) => match (
            u32_at(m, off(w, IMGUI_WIN_SCROLL_Y)),
            u32_at(m, off(w, IMGUI_WIN_SCROLLMAX_Y)),
        ) {
            (Some(y), Some(max)) => Some(Some((y, max))),
            _ => None,
        },
    }
}

/// How far the current window is scrolled, and how far it can be. `None` on a fault, `Some(None)`
/// without a window.
pub fn scroll(m: &mut Memory, base: u64) -> (r: Option<Option<(u32, u32)>>)
    ensures
        r == scroll_of(old(m)@, base),
        final(m)@ == old(m)@,
{
    let w = current_window(m, base)?;
    if w == 0 {
        return Some(None);
    }
    let y = m.read_u32(w.wrapping_add(IMGUI_WIN_SCROLL_Y))?;
    let max = m.read_u32(w.wrapping_add(IMGUI_WIN_SCROLLMAX_Y))?;
    Some(Some((y, max)))
}

/// Whether the log follows its newest line: only where it is at the bottom already. `near_end` is
/// the greatest scroll position less one.
pub fn follows(y: u32, near_end: u32) -> (r: bool)
    ensures
        r == at_most32(near_end, y),
{
    le32(near_end, y)
}

/// The bytes before the first zero.
pub open spec fn up_to_zero(b: Seq<u8>, i: int) -> Seq<u8>
    decreases b.len() - i,
{
    if i < 0 || i >= b.len() || b[i] == 0 {
        Seq::empty()
    } else {
        seq![b[i]] + up_to_zero(b, i + 1)
    }
}

fn before_zero(b: &Vec<u8>) -> (r: Vec<u8>)
    ensures
        r@ == up_to_zero(b@, 0),
{
    let mut out: Vec<u8> = Vec::new();
    let mut i: usize = 0;
    assert(out@ + up_to_zero(b@, 0) =~= up_to_zero(b@, 0));
    while i < b.len() && b[i] != 0
        invariant
            i <= b.len(),
            out@ + up_to_zero(b@, i as int) == up_to_zero(b@, 0),
        decreases b.len() - i,
    {
        let ghost o = out@;
        out.push(b[i]);
        i += 1;
        assert(o + (seq![b@[i - 1]] + up_to_zero(b@, i as int)) =~= out@ + up_to_zero(
            b@,
            i as int,
        ));
    }
    assert(out@ + Seq::<u8>::empty() =~= out@);
    out
}

/// The line in the input box.
pub open spec fn typed(buf: Seq<u8>) -> Seq<char> {
    trimmed(utf8_lossy(up_to_zero(buf, 0)))
}

/// Enter was pressed in the input box: queue its line, unless it is empty, and clear the box.
/// Returns whether a line was queued.
pub fn enter(buf: &mut Vec<u8>, lines: &mut Lines) -> (r: bool)
    ensures
        r == (typed(old(buf)@).len() > 0),
        final(lines)@ == if r {
            old(lines)@.push(typed(old(buf)@))
        } else {
            old(lines)@
        },
        final(buf)@ == if old(buf)@.len() > 0 {
            old(buf)@.update(0, 0)
        } else {
            old(buf)@
        },
{
    let bytes = before_zero(buf);
    let decoded = text::from_utf8(&bytes);
    if buf.len() > 0 {
        buf.set(0, 0);
    }
    console::submit_trimmed(lines, decoded.as_str())
}

/// A cleared box holds nothing: Enter does not queue a line twice.
pub proof fn law_enter_clears(buf: Seq<u8>)
    requires
        buf.len() > 0,
    ensures
        up_to_zero(buf.update(0, 0), 0) == Seq::<u8>::empty(),
{
}

/// Where to draw: the window, its draw list, and the place of the next widget.
#[derive(Clone, Copy, Debug, PartialEq, Eq, Structural)]
pub struct Canvas {
    pub window: u64,
    pub list: u64,
    pub x: u32,
    pub y: u32,
}

/// Where to draw, if there is a window with a draw list.
pub open spec fn canvas_of(m: Bytes, base: u64) -> Option<Option<Canvas>> {
    match window(m, base) {
        None => None,
        Some(0) => Some(None),
        Some(w) => match u64_at(m, off(w, IMGUI_WIN_DRAWLIST)) {
            None => None,
            Some(0) => Some(None),
            Some(list) => match (
                u32_at(m, off(w, IMGUI_WIN_CURSOR_POS)),
                u32_at(m, off(off(w, IMGUI_WIN_CURSOR_POS), 4)),
            ) {
                (Some(x), Some(y)) => Some(Some(Canvas { window: w, list, x, y })),
                _ => None,
            },
        },
    }
}

/// Where to draw. `None` on a fault, `Some(None)` where there is nothing to draw on.
pub fn canvas(m: &mut Memory, base: u64) -> (r: Option<Option<Canvas>>)
    ensures
        r == canvas_of(old(m)@, base),
        final(m)@ == old(m)@,
{
    let w = current_window(m, base)?;
    if w == 0 {
        return Some(None);
    }
    let list = m.read_u64(w.wrapping_add(IMGUI_WIN_DRAWLIST))?;
    if list == 0 {
        return Some(None);
    }
    let x = m.read_u32(w.wrapping_add(IMGUI_WIN_CURSOR_POS))?;
    let y = m.read_u32(w.wrapping_add(IMGUI_WIN_CURSOR_POS).wrapping_add(4))?;
    Some(Some(Canvas { window: w, list, x, y }))
}

/// The right edge of a window's contents. `None` on a fault.
pub fn content_right(m: &mut Memory, w: u64) -> (r: Option<u32>)
    ensures
        r == u32_at(old(m)@, off(w, IMGUI_WIN_CONTENT_MAX_X)),
        final(m)@ == old(m)@,
{
    m.read_u32(w.wrapping_add(IMGUI_WIN_CONTENT_MAX_X))
}

/// The greatest of `top` and the first `n` samples.
pub open spec fn tallest(samples: Seq<u32>, n: nat, top: u32) -> u32
    decreases n,
{
    if n == 0 {
        top
    } else {
        let t = tallest(samples, (n - 1) as nat, top);
        if less32(t, samples[n - 1]) {
            samples[n - 1]
        } else {
            t
        }
    }
}

/// The rate at the top of the graph: the greatest sample, but at least 120 and at most 360.
pub open spec fn peak_of(samples: Seq<u32>) -> u32 {
    lesser32(tallest(samples, samples.len(), GRAPH_LEAST), GRAPH_MOST)
}

/// The rate at the top of the graph: the greatest sample, but at least 120 and at most 360.
pub fn graph_peak(samples: &Vec<u32>) -> (r: u32)
    ensures
        r == peak_of(samples@),
{
    let mut peak = GRAPH_LEAST;
    let mut i: usize = 0;
    while i < samples.len()
        invariant
            i <= samples.len(),
            peak == tallest(samples@, i as nat, GRAPH_LEAST),
        decreases samples.len() - i,
    {
        if lt32(peak, samples[i]) {
            peak = samples[i];
        }
        i += 1;
    }
    min32(peak, GRAPH_MOST)
}

/// Before it is held to 360, the top of the graph is not below 120, and no sample is higher.
pub proof fn law_graph_holds_samples(samples: Seq<u32>, n: nat, i: int)
    requires
        0 <= i < n <= samples.len(),
    ensures
        !less32(tallest(samples, n, GRAPH_LEAST), GRAPH_LEAST),
        !less32(tallest(samples, n, GRAPH_LEAST), samples[i]),
    decreases n,
{
    lemma_tallest(samples, (n - 1) as nat);
    if i < n - 1 {
        law_graph_holds_samples(samples, (n - 1) as nat, i);
    }
}

proof fn lemma_tallest(samples: Seq<u32>, n: nat)
    requires
        n <= samples.len(),
    ensures
        !less32(tallest(samples, n, GRAPH_LEAST), GRAPH_LEAST),
        !crate::ieee::nan32(tallest(samples, n, GRAPH_LEAST)),
    decreases n,
{
    if n > 0 {
        lemma_tallest(samples, (n - 1) as nat);
    }
}

} // verus!
