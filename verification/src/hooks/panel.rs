//! What the control panel offers, and what using it leads to.

use vstd::prelude::*;

use crate::campaign::Info;
use crate::cmd::Cmd;
use crate::hooks::imgui::{
    Action, Check, Panel, Part, Place, Section, Slider, Widget, cam_checked, campaign_widgets,
    canvas_of, character_widgets, check_commands, check_lines, filled, fx_widgets, guarded_part,
    header_flags, installing, label_of, line_text, machinima_widgets, next_place, part_name,
    peak_of, pressed_commands, pressed_keyframes, pressed_panel, pressed_view, range_of, scroll_of,
    section_at, section_widgets, skull_label, skull_widgets, slid, stats_widgets, tallest,
    timeline_widgets, title_of, toggled, up_to_zero, window,
};
use crate::hooks::skulls::{law_script_name_is_label, script_form};
use crate::ieee::{finite32, less32, nan32};
use crate::memory::{Bytes, off, u32_at, u64_at};
use crate::paths::{Kf, Path, captured};
use crate::perf::Ring;
use crate::state::CamData;
use crate::stats::{Board, Stats};
use crate::text::{dec, sdec};

verus! {

/// A button adds its own command behind those that wait, and no button changes them otherwise.
pub proof fn law_button_runs_command(a: Action, x: Cmd, q: Seq<Cmd>)
    ensures
        pressed_commands(Action::Run(x), q).len() == q.len() + 1,
        pressed_commands(Action::Run(x), q).last() == x,
        pressed_commands(Action::Run(x), q).drop_last() == q,
        !(a is Run) ==> pressed_commands(a, q) == q,
{
    assert(pressed_commands(Action::Run(x), q).drop_last() =~= q);
}

/// The two buttons for windows each show or hide their own window: pressed twice they change
/// nothing. No other button changes the panel.
pub proof fn law_window_buttons(a: Action, p: Panel)
    ensures
        pressed_panel(Action::KeyframeList, p).show_keyframes == !p.show_keyframes,
        pressed_panel(Action::KeyframeList, p).show_console == p.show_console,
        pressed_panel(Action::Console, p).show_console == !p.show_console,
        pressed_panel(Action::Console, p).show_keyframes == p.show_keyframes,
        pressed_panel(a, pressed_panel(a, p)) == p,
        !(a is KeyframeList || a is Console) ==> pressed_panel(a, p) == p,
        pressed_panel(a, p).shown == p.shown && pressed_panel(a, p).hooked == p.hooked,
{
}

/// The path's buttons: one adds the camera's point of view behind the keyframes, one drops all
/// keyframes and stops, one starts or stops the playing from the start of the path where there
/// are two keyframes or more, and a start switches the free camera on. The reset of the field of
/// view gives 90 degrees and unlocks it. Nothing else changes the path or the camera.
pub proof fn law_path_buttons(
    a: Action,
    kf: Seq<Kf>,
    playing: bool,
    t: u64,
    c: CamData,
)
    ensures
        ({
            let n = pressed_keyframes(a, kf, c);
            let (on, at, v) = pressed_view(a, kf, playing, t, c);
            &&& a is AddKeyframe ==> n == captured(kf, c)
            &&& a is ClearPath ==> n.len() == 0 && !on
            &&& !(a is AddKeyframe || a is ClearPath) ==> n == kf
            &&& a is PlayStop && kf.len() < 2 ==> on == playing && at == t && v == c
            &&& a is PlayStop && kf.len() >= 2 && playing ==> !on && at == 0 && v == c
            &&& a is PlayStop && kf.len() >= 2 && !playing ==> on && at == 0 && v == (CamData {
                freecam: true,
                ..c
            })
            &&& a is FovReset ==> v == (CamData { fov: 0x42b4_0000, fov_locked: false, ..c })
            &&& !(a is PlayStop) ==> at == t
            &&& !(a is PlayStop || a is ClearPath) ==> on == playing
            &&& !(a is PlayStop || a is FovReset) ==> v == c
        }),
{
}

/// The slider of the field of view sets it and locks it. The slider of the time asks for a time
/// scale and leaves the camera alone. They run from 20 to 140 degrees and from 0.05 to 4.
pub proof fn law_sliders(value: u32, q: Seq<Cmd>, c: CamData)
    ensures
        slid(Slider::Fov, value, q, c).0 == q,
        slid(Slider::Fov, value, q, c).1.fov == value,
        slid(Slider::Fov, value, q, c).1.fov_locked,
        slid(Slider::Fov, value, q, c).1 == (CamData { fov: value, fov_locked: true, ..c }),
        slid(Slider::Time, value, q, c).0 == q.push(Cmd::Slomo(value)),
        slid(Slider::Time, value, q, c).1 == c,
        range_of(Slider::Fov) == (0x41a0_0000u32, 0x430c_0000u32),
        range_of(Slider::Time) == (0x3d4c_cccdu32, 0x4080_0000u32),
{
}

/// The checkbox of the free camera switches it, takes the game's point of view over where it comes
/// on, and takes the player's input or gives it back. The one of mouse-look switches that alone.
/// No other checkbox changes the camera, and only the free camera's and night vision's queue a
/// command.
pub proof fn law_camera_checkboxes(k: Check, on: bool, c: CamData)
    ensures
        cam_checked(Check::FreeCam, on, c) == (CamData { freecam: on, seed: c.seed || on, ..c }),
        cam_checked(Check::MouseLook, on, c) == (CamData { mouse: on, ..c }),
        k is Flashlight || k is Skull ==> cam_checked(k, on, c) == c,
        check_commands(Check::FreeCam, true) == seq![Cmd::Freeze],
        check_commands(Check::FreeCam, false) == seq![Cmd::Unfreeze],
        k is MouseLook || k is Flashlight ==> check_commands(k, on).len() == 0,
        k is FreeCam || k is MouseLook ==> check_lines(k, on).len() == 0,
{
}

/// The checkbox of a skull has the script interpreter switch the skull that it is labelled with,
/// on or off as the checkbox is. Night vision alone is switched by a command, and no line is
/// queued for it.
pub proof fn law_skull_checkboxes(i: usize, on: bool)
    requires
        i < 53,
    ensures
        skull_label(1) == "Night Vision"@,
        i == 1 ==> check_lines(Check::Skull(i), on).len() == 0 && check_commands(
            Check::Skull(i),
            on,
        ) == seq![Cmd::NightVision(on)],
        i != 1 ==> check_commands(Check::Skull(i), on).len() == 0 && check_lines(
            Check::Skull(i),
            on,
        ) == seq![
            "hs:skull_enable skull_"@ + script_form(skull_label(i)) + " "@ + (if on {
                "true"@
            } else {
                "false"@
            }),
        ],
{
    law_script_name_is_label(i);
    reveal_strlit("hs:skull_enable ");
    reveal_strlit("hs:skull_enable skull_");
    reveal_strlit("skull_");
    let l = script_form(skull_label(i));
    assert("hs:skull_enable "@ + "skull_"@ =~= "hs:skull_enable skull_"@);
    assert("hs:skull_enable "@ + ("skull_"@ + l) =~= "hs:skull_enable "@ + "skull_"@ + l);
}

/// The checkbox of the flashlight queues one line, the same for on and off but for its last word.
pub proof fn law_flashlight_checkbox(on: bool)
    ensures
        check_lines(Check::Flashlight, on) == seq![
            "hs:unit_set_integrated_flashlight (player0) "@ + (if on {
                "true"@
            } else {
                "false"@
            }),
        ],
{
}

/// The buttons that go by two, one to switch on and one to switch off, and the labels they bear.
pub proof fn law_pair_labels(p: Panel)
    ensures
        label_of(Action::Run(Cmd::CineOn), p) == "Cinematic ON (hide HUD/player)"@,
        label_of(Action::Run(Cmd::CineOff), p) == "Cinematic OFF"@,
        label_of(Action::Run(Cmd::SimFreeze), p) == "Freeze sim (Blam)"@,
        label_of(Action::Run(Cmd::SimUnfreeze), p) == "Resume sim (Blam)"@,
        label_of(Action::Run(Cmd::PawnHide), p) == "Hide body"@,
        label_of(Action::Run(Cmd::PawnShow), p) == "Show body"@,
        label_of(Action::Run(Cmd::PawnNoCol), p) == "Collision OFF"@,
        label_of(Action::Run(Cmd::PawnCol), p) == "Collision ON"@,
        label_of(Action::Run(Cmd::CamoOn), p) == "Active Camo ON"@,
        label_of(Action::Run(Cmd::CamoOff), p) == "Active Camo OFF"@,
        label_of(Action::Run(Cmd::OvershieldOn), p) == "Overshield ON"@,
        label_of(Action::Run(Cmd::OvershieldOff), p) == "Overshield OFF"@,
        label_of(Action::KeyframeList, p) == if p.show_keyframes {
            "Hide keyframe list"@
        } else {
            "Show keyframe list"@
        },
        label_of(Action::Console, p) == if p.show_console {
            "Hide console"@
        } else {
            "Show console"@
        },
{
}

/// The labels of the other buttons.
pub proof fn law_labels(p: Panel, v: u32)
    ensures
        label_of(Action::Run(Cmd::DiagMission), p) == "Diag: mission"@,
        label_of(Action::Run(Cmd::DiagTime), p) == "Diag: time timer"@,
        label_of(Action::Run(Cmd::Slomo(v)), p) == "Time reset (1x)"@,
        label_of(Action::FovReset, p) == "FOV reset"@,
        label_of(Action::Run(Cmd::Pause), p) == "Pause toggle"@,
        label_of(Action::Run(Cmd::ScaleGiant), p) == "Giant"@,
        label_of(Action::Run(Cmd::ScaleTiny), p) == "Tiny"@,
        label_of(Action::Run(Cmd::ScaleNormal), p) == "Normal size"@,
        label_of(Action::Run(Cmd::Teleport), p) == "Teleport to camera"@,
        label_of(Action::Run(Cmd::ShieldBreak), p) == "Shield-break FX"@,
        label_of(Action::Run(Cmd::RechargePP), p) == "Recharge FX"@,
        label_of(Action::Run(Cmd::RadialBlur), p) == "Radial blur"@,
        label_of(Action::Run(Cmd::Breath), p) == "Breath fog"@,
        label_of(Action::Run(Cmd::BloodHuman), p) == "Blood: Human"@,
        label_of(Action::Run(Cmd::BloodCov), p) == "Blood: Covenant"@,
        label_of(Action::Run(Cmd::BloodGrunt), p) == "Blood: Grunt"@,
        label_of(Action::Run(Cmd::BloodBrute), p) == "Blood: Brute"@,
        label_of(Action::Run(Cmd::ImguiInput), p) == "Toggle ImGui Input (cursor)"@,
        label_of(Action::AddKeyframe, p) == "Add Keyframe"@,
        label_of(Action::PlayStop, p) == "Play / Stop"@,
        label_of(Action::ClearPath, p) == "Clear"@,
{
}

/// A section holds a button for the command.
pub open spec fn offers(v: Seq<Widget>, c: Cmd) -> bool {
    v.contains(Widget::Button(Action::Run(c)))
}

/// What each section offers: the commands by their buttons, the checkboxes and the sliders. The
/// button for the usual speed asks for a time scale of 1.
pub proof fn law_sections_offer(
    b: Board,
    ring: Ring,
    info: Info,
    path: Path,
)
    ensures
        ({
            let film = section_widgets(Section::Machinima, b, ring, info, path);
            let body = section_widgets(Section::Character, b, ring, info, path);
            let fx = section_widgets(Section::PawnFx, b, ring, info, path);
            let time = section_widgets(Section::Timeline, b, ring, info, path);
            let ui = section_widgets(Section::Ui, b, ring, info, path);
            let mission = section_widgets(Section::Campaign, b, ring, info, path);
            &&& film.contains(Widget::Check(Check::FreeCam))
            &&& film.contains(Widget::Check(Check::MouseLook))
            &&& film.contains(Widget::Slider(Slider::Fov))
            &&& film.contains(Widget::Slider(Slider::Time))
            &&& film.contains(Widget::Button(Action::FovReset))
            &&& offers(film, Cmd::Slomo(0x3f80_0000)) && offers(film, Cmd::Pause)
            &&& offers(film, Cmd::CineOn) && offers(film, Cmd::CineOff)
            &&& offers(film, Cmd::SimFreeze) && offers(film, Cmd::SimUnfreeze)
            &&& offers(film, Cmd::DiagTime)
            &&& time.contains(Widget::Track)
            &&& time.contains(Widget::Button(Action::AddKeyframe))
            &&& time.contains(Widget::Button(Action::PlayStop))
            &&& time.contains(Widget::Button(Action::ClearPath))
            &&& time.contains(Widget::Button(Action::KeyframeList))
            &&& time.contains(Widget::Keyframes(path.kf@.len() as usize, path.playing))
            &&& offers(body, Cmd::PawnHide) && offers(body, Cmd::PawnShow)
            &&& offers(body, Cmd::PawnNoCol) && offers(body, Cmd::PawnCol)
            &&& offers(body, Cmd::ScaleGiant) && offers(body, Cmd::ScaleTiny)
            &&& offers(body, Cmd::ScaleNormal) && offers(body, Cmd::Teleport)
            &&& body.contains(Widget::Check(Check::Flashlight))
            &&& offers(fx, Cmd::CamoOn) && offers(fx, Cmd::CamoOff)
            &&& offers(fx, Cmd::OvershieldOn) && offers(fx, Cmd::OvershieldOff)
            &&& offers(fx, Cmd::ShieldBreak) && offers(fx, Cmd::RechargePP)
            &&& offers(fx, Cmd::RadialBlur) && offers(fx, Cmd::Breath)
            &&& offers(fx, Cmd::BloodHuman) && offers(fx, Cmd::BloodCov)
            &&& offers(fx, Cmd::BloodGrunt) && offers(fx, Cmd::BloodBrute)
            &&& offers(ui, Cmd::ImguiInput) && ui.contains(Widget::Button(Action::Console))
            &&& offers(mission, Cmd::DiagMission)
        }),
{
    let film = machinima_widgets();
    let body = character_widgets();
    let fx = fx_widgets();
    let time = timeline_widgets(path.kf@.len() as usize, path.playing);
    let ui = section_widgets(Section::Ui, b, ring, info, path);
    let mission = campaign_widgets(info);
    assert(film[0] == film[0] && film[1] == film[1] && film[2] == film[2] && film[3] == film[3]
        && film[4] == film[4] && film[5] == film[5] && film[6] == film[6] && film[7] == film[7]
        && film[8] == film[8] && film[9] == film[9] && film[10] == film[10] && film[11] == film[11]);
    assert(time[0] == time[0] && time[1] == time[1] && time[2] == time[2] && time[3] == time[3]
        && time[4] == time[4] && time[5] == time[5]);
    assert(body[0] == body[0] && body[1] == body[1] && body[2] == body[2] && body[3] == body[3]
        && body[4] == body[4] && body[5] == body[5] && body[6] == body[6] && body[7] == body[7]
        && body[8] == body[8]);
    assert(fx[0] == fx[0] && fx[1] == fx[1] && fx[2] == fx[2] && fx[3] == fx[3] && fx[4] == fx[4]
        && fx[5] == fx[5] && fx[6] == fx[6] && fx[7] == fx[7] && fx[8] == fx[8] && fx[9] == fx[9]
        && fx[10] == fx[10] && fx[11] == fx[11]);
    assert(ui[0] == ui[0] && ui[1] == ui[1]);
    assert(mission[mission.len() - 1] == Widget::Button(Action::Run(Cmd::DiagMission)));
}

/// There is a checkbox for every skull, in the order of the table.
pub proof fn law_skulls_listed(i: int)
    requires
        0 <= i < 53,
    ensures
        skull_widgets().len() == 53,
        skull_widgets()[i] == Widget::Check(Check::Skull(i as usize)),
{
}

/// The statistics show the vitality that was read, health before shield, and how many enemies
/// there are once they were counted; before that a word that says what is waited for. The frame
/// rate and its graph come last, always.
pub proof fn law_stats_shown(s: Stats, fps: u32)
    ensures
        ({
            let v = stats_widgets(s, fps);
            &&& v[v.len() - 2] == Widget::Fps(fps)
            &&& v[v.len() - 1] == Widget::FpsGraph
            &&& s.valid ==> v.len() == 5 && v[0] == Widget::Health(s.health) && v[1]
                == Widget::Shield(s.shield)
            &&& s.valid && s.enemies_total >= 0 ==> v[2] == Widget::Enemies(
                s.enemies_alive,
                s.enemies_total,
            )
            &&& s.valid && s.enemies_total < 0 ==> v[2] == Widget::Counting
            &&& !s.valid ==> v.len() == 3 && v[0] == Widget::NoPawn
        }),
{
}

/// The campaign shows the mission, and the difficulty, the checkpoint and the segment where they
/// are known, in that order.
pub proof fn law_campaign_shown(i: Info)
    ensures
        ({
            let v = campaign_widgets(i);
            let d = if i.difficulty@.len() > 0 {
                1int
            } else {
                0
            };
            let k = if i.checkpoint >= 0 {
                1int
            } else {
                0
            };
            let g = if i.segment >= 0 {
                1int
            } else {
                0
            };
            &&& v.len() == 2 + d + k + g
            &&& v[0] == if i.level@.len() == 0 {
                Widget::Loading
            } else {
                Widget::Mission
            }
            &&& d == 1 ==> v[1] == Widget::Difficulty
            &&& k == 1 ==> v[1 + d] == Widget::Checkpoint(i.checkpoint)
            &&& g == 1 ==> v[1 + d + k] == Widget::Segment(i.segment)
        }),
{
}

/// The lines of text: what each says, and of which value.
pub proof fn law_lines(i: Info, a: i32, b: i32, n: usize, playing: bool)
    ensures
        line_text(Widget::Enemies(a, b), i) == Some(
            "Enemies  "@ + sdec(a as int) + " alive / "@ + sdec(b as int) + " total"@,
        ),
        line_text(Widget::Counting, i) == Some("Enemies  counting..."@),
        line_text(Widget::NoPawn, i) == Some("waiting for pawn..."@),
        line_text(Widget::Loading, i) == Some("mission: (loading)"@),
        line_text(Widget::Mission, i) == Some("Mission: "@ + i.level@),
        line_text(Widget::Difficulty, i) == Some("Difficulty: "@ + i.difficulty@),
        line_text(Widget::Checkpoint(a), i) == Some("Checkpoint: "@ + sdec(a as int)),
        line_text(Widget::Segment(a), i) == Some("Segment: "@ + sdec(a as int)),
        line_text(Widget::Keyframes(n, playing), i) == Some(
            dec(n as nat) + " keyframes   "@ + (if playing {
                "playing"@
            } else {
                "stopped"@
            }),
        ),
{
}

/// The sections from top to bottom, with their titles. The first four are open at first, which is
/// the one bit in which their headers' flags differ from the others'.
pub proof fn law_sections(i: int)
    requires
        0 <= i < 8,
    ensures
        title_of(section_at(i)) == if i == 0 {
            "Stats"@
        } else if i == 1 {
            "Campaign"@
        } else if i == 2 {
            "Machinima"@
        } else if i == 3 {
            "Timeline"@
        } else if i == 4 {
            "Character / Pawn"@
        } else if i == 5 {
            "Pawn FX"@
        } else if i == 6 {
            "Skulls"@
        } else {
            "UI"@
        },
        header_flags(section_at(i)) - (if i < 4 {
            0x20int
        } else {
            0
        }) == 0x1a,
{
}

/// Two widgets are guarded as the same part only where they are both skulls, or the same bar,
/// slider, checkbox, graph or track. Text and buttons are not guarded on their own.
pub proof fn law_parts_apart(v: Widget, w: Widget)
    ensures
        guarded_part(v) is Some && guarded_part(v) == guarded_part(w) ==> {
            ||| v == w
            ||| v is Health && w is Health
            ||| v is Shield && w is Shield
            ||| v matches Widget::Check(Check::Skull(_)) && w matches Widget::Check(Check::Skull(_))
        },
        v is Button ==> guarded_part(v) is None,
        v is Check || v is Slider || v is Health || v is Shield || v is FpsGraph || v is Track
            ==> guarded_part(v) is Some,
{
}

/// The part that each guarded widget is reported as.
pub proof fn law_part_names(x: u32, i: usize)
    ensures
        part_name(guarded_part(Widget::Health(x))->0) == "health bar"@,
        part_name(guarded_part(Widget::Shield(x))->0) == "shield bar"@,
        part_name(guarded_part(Widget::FpsGraph)->0) == "fps graph"@,
        part_name(guarded_part(Widget::Track)->0) == "timeline"@,
        part_name(guarded_part(Widget::Check(Check::FreeCam))->0) == "free-cam checkbox"@,
        part_name(guarded_part(Widget::Check(Check::MouseLook))->0) == "mouse checkbox"@,
        part_name(guarded_part(Widget::Check(Check::Flashlight))->0) == "flashlight"@,
        part_name(guarded_part(Widget::Check(Check::Skull(i)))->0) == "skull checkbox"@,
        part_name(guarded_part(Widget::Slider(Slider::Fov))->0) == "fov slider"@,
        part_name(guarded_part(Widget::Slider(Slider::Time))->0) == "time slider"@,
        part_name(Part::Whole) == "panel"@,
        part_name(Part::KeyframeWindow) == "kf window"@,
        part_name(Part::ConsoleWindow) == "console window"@,
{
}

/// A bar is never filled beyond empty and full, is filled by the ratio in between, and stays empty
/// for a percentage that is no number.
pub proof fn law_bars(percent: u32, ratio: u32)
    requires
        !nan32(ratio),
    ensures
        !finite32(percent) ==> filled(percent, ratio) == 0,
        !less32(filled(percent, ratio), 0),
        !less32(0x3f80_0000, filled(percent, ratio)),
        finite32(percent) && !less32(ratio, 0) && !less32(0x3f80_0000, ratio) ==> filled(
            percent,
            ratio,
        ) == ratio,
{
}

/// The top of the graph is between 120 and 360, and above 120 only by a sample.
pub proof fn law_graph_top(samples: Seq<u32>)
    ensures
        !less32(peak_of(samples), 0x42f0_0000),
        !less32(0x43b4_0000, peak_of(samples)),
        peak_of(samples) == 0x42f0_0000 || peak_of(samples) == 0x43b4_0000 || samples.contains(
            peak_of(samples),
        ),
        samples.len() == 0 ==> peak_of(samples) == 0x42f0_0000,
{
    lemma_tallest_is_one(samples, samples.len());
}

proof fn lemma_tallest_is_one(samples: Seq<u32>, n: nat)
    requires
        n <= samples.len(),
    ensures
        ({
            let t = tallest(samples, n, 0x42f0_0000);
            &&& !nan32(t)
            &&& !less32(t, 0x42f0_0000)
            &&& t == 0x42f0_0000 || samples.contains(t)
        }),
    decreases n,
{
    if n > 0 {
        lemma_tallest_is_one(samples, (n - 1) as nat);
        assert(samples.contains(samples[n - 1]));
    }
}

/// The line in the input box ends at the first zero: what stands behind it does not matter.
pub proof fn law_typed_ends_at_zero(a: Seq<u8>, b: Seq<u8>, i: int)
    requires
        0 <= i <= a.len(),
        forall|k: int| 0 <= k < a.len() ==> #[trigger] a[k] != 0,
    ensures
        up_to_zero(a + seq![0u8] + b, i) == a.skip(i),
    decreases a.len() - i,
{
    let s = a + seq![0u8] + b;
    if i < a.len() {
        law_typed_ends_at_zero(a, b, i + 1);
        assert(s[i] == a[i]);
        assert(a.skip(i) =~= seq![a[i]] + a.skip(i + 1));
    } else {
        assert(s[i] == 0);
        assert(a.skip(i) =~= Seq::<u8>::empty());
    }
}

/// The order of drawing. The panel's window is begun; with nothing of it to see it is ended at once.
/// Otherwise the sections come one after the other, each with its header and, where it is open, its
/// widgets in order; then the window is ended, and the windows of the keyframes and of the console
/// follow where they are shown, in that order.
pub proof fn law_drawing_order(i: usize, k: usize, n: usize, yes: bool, p: Panel)
    requires
        i < 8,
        k < n,
    ensures
        next_place(Place::Begin, true, n, p) == Place::Header(0),
        next_place(Place::Begin, false, n, p) == Place::Skip,
        next_place(Place::Header(i), true, n, p) == Place::Item(i, 0),
        next_place(Place::Header(i), false, n, p) == if i < 7 {
            Place::Header((i + 1) as usize)
        } else {
            Place::End
        },
        next_place(Place::Header(i), true, 0, p) == next_place(Place::Header(i), false, 0, p),
        k + 1 < n ==> next_place(Place::Item(i, k), yes, n, p) == Place::Item(i, (k + 1) as usize),
        k + 1 == n ==> next_place(Place::Item(i, k), yes, n, p) == next_place(
            Place::Header(i),
            false,
            n,
            p,
        ),
        next_place(Place::End, yes, n, p) == if p.show_keyframes {
            Place::KeyframeWindow
        } else {
            next_place(Place::KeyframeWindow, yes, n, p)
        },
        next_place(Place::KeyframeWindow, yes, n, p) == if p.show_console {
            Place::ConsoleWindow
        } else {
            Place::Done
        },
        next_place(Place::ConsoleWindow, yes, n, p) == Place::Done,
        next_place(Place::Skip, yes, n, p) == Place::Done,
{
}

/// The panel's callback is put in the place of the plugin's own, at 0xbf49950 of the game, where
/// that is the one at 0x739d270, and once. The plugin's own is kept.
pub proof fn law_callback_replaced(p: Panel, m: Bytes, base: u64, detour: u64)
    requires
        !p.hooked,
    ensures
        ({
            let (r, n, q) = installing(p, m, base, detour);
            let found = u64_at(m, off(base, 0xbf4_9950));
            &&& found is None ==> r is Faulted && n == p && q == m
            &&& found == Some(off(base, 0x739_d270)) ==> {
                &&& r is Done
                &&& n.hooked && n.original == off(base, 0x739_d270)
                &&& u64_at(q, off(base, 0xbf4_9950)) == Some(detour)
            }
            &&& found is Some && found != Some(off(base, 0x739_d270)) ==> {
                &&& r is Mismatch
                &&& n.hooked
                &&& q == m
            }
            &&& n.shown == p.shown
        }),
        installing(Panel { hooked: true, ..p }, m, base, detour).0 is Already,
        toggled(p, m, base, detour).0.shown == !p.shown,
{
    crate::memory::lemma_put64_frame(m, off(base, 0xbf4_9950), detour);
}

/// The current window is the one of the drawing library's context, which the game keeps at
/// 0xd56a008. The scroll position, the draw list and the place to draw at are read of it.
pub proof fn law_window_read(m: Bytes, base: u64, g: u64, w: u64)
    requires
        u64_at(m, off(base, 0xd56_a008)) == Some(g),
        g != 0,
        u64_at(m, off(g, 0x3ed8)) == Some(w),
        w != 0,
    ensures
        window(m, base) == Some(w),
        scroll_of(m, base) matches Some(Some((y, max))) ==> u32_at(m, off(w, 0x88)) == Some(y)
            && u32_at(m, off(w, 0x90)) == Some(max),
        canvas_of(m, base) matches Some(Some(c)) ==> {
            &&& c.window == w
            &&& u64_at(m, off(w, 0x298)) == Some(c.list)
            &&& u32_at(m, off(w, 0x100)) == Some(c.x)
            &&& u32_at(m, off(off(w, 0x100), 4)) == Some(c.y)
        },
{
}

} // verus!
