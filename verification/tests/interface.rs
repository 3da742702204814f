//! Commands, the console, keys, the panel, the cameras and camera paths.

use huragok::campaign::Info;
use huragok::cmd;
use huragok::cmd::{Cmd, Queue};
use huragok::console;
use huragok::console::{Builtin, Lines};
use huragok::hooks::camera;
use huragok::hooks::camera::{CamHook, Override};
use huragok::hooks::hook_vtable_slot;
use huragok::hooks::imgui;
use huragok::hooks::imgui::{Action, Check, Panel, Part, Place, Section, Slider, Widget};
use huragok::hooks::pc;
use huragok::hooks::pc::PcHook;
use huragok::input;
use huragok::input::{Keys, Move, Sums};
use huragok::log;
use huragok::log::Log;
use huragok::look;
use huragok::look::Look;
use huragok::memory::Memory;
use huragok::offsets::{
    DRAWCONTROLS, DRAWCONTROLS_SLOT, FNAMEPOOL, GAVERAGEFPS, GETFOVANGLE_SLOT, GIMGUI_PTR,
    GUOBJECTARRAY, NP_BLOCKS, PROCESSEVENT_SLOT,
};
use huragok::paths;
use huragok::paths::{Kf, Path};
use huragok::perf;
use huragok::perf::Ring;
use huragok::script;
use huragok::script::Watch;
use huragok::state::CamData;
use huragok::stats::{Board, note_count, refresh};

const BASE: u64 = 0x1_4000_0000;
const DETOUR: u64 = 0x7fff_0000;

fn put(m: &mut Memory, a: u64, v: u64, n: u64) {
    for i in 0..n {
        m.load(a.wrapping_add(i), (v >> (8 * i)) as u8);
    }
}

fn keys(pressed: &[u8], down: &[u8]) -> Keys {
    let mut k = Keys { pressed: [false; 256], down: [false; 256] };
    for v in pressed {
        k.pressed[*v as usize] = true;
    }
    for v in down {
        k.down[*v as usize] = true;
    }
    k
}

#[test]
fn commands_come_out_in_order() {
    let mut q = Queue::new();
    assert!(!cmd::has_pending(&q));
    cmd::push(&mut q, Cmd::Pause);
    cmd::push(&mut q, Cmd::Slomo(7));
    assert!(cmd::has_pending(&q));
    assert_eq!(cmd::take_all(&mut q), vec![Cmd::Pause, Cmd::Slomo(7)]);
    assert!(!cmd::has_pending(&q));
    assert!(cmd::take_all(&mut q).is_empty());
}

#[test]
fn typed_lines_are_trimmed_and_queued() {
    let mut q = Lines::new();
    let typed: Vec<u8> = b"  help \r\n\n\t\nhs:x 1\n\xffz".to_vec();
    assert_eq!(console::reader(&mut q, &typed), 3);
    console::submit(&mut q, "last".to_string());
    assert_eq!(
        console::take_all(&mut q),
        vec!["help".to_string(), "hs:x 1".to_string(), "\u{fffd}z".to_string(), "last".to_string()]
    );
    assert!(console::take_all(&mut q).is_empty());
}

#[test]
fn a_blank_line_is_not_queued() {
    let mut q = Lines::new();
    assert!(!console::submit_trimmed(&mut q, " \t "));
    assert!(!console::submit_trimmed(&mut q, ""));
    assert!(console::submit_trimmed(&mut q, "\t slomo 0.5 \r"));
    assert_eq!(console::submit_lines(&mut q, "  \n a\r\n\nb c \n"), 2);
    assert_eq!(
        console::take_all(&mut q),
        vec!["slomo 0.5".to_string(), "a".to_string(), "b c".to_string()]
    );
}

#[test]
fn builtin_lines_are_told_from_the_engines() {
    let kind = |s: &str| console::builtin(s).0;
    assert_eq!(kind("huragok dump"), Builtin::Dump);
    assert_eq!(kind("huragok control"), Builtin::Control);
    assert_eq!(kind("huragok possess"), Builtin::Watch);
    assert_eq!(kind("huragok release"), Builtin::Release);
    assert_eq!(kind("huragok diagunit"), Builtin::DiagUnit);
    assert_eq!(kind("huragok diagweapon"), Builtin::DiagWeapon);
    assert_eq!(kind("huragok script"), Builtin::Script);
    assert_eq!(kind("hs:ai_enable 1"), Builtin::Engine);
    assert_eq!(kind("huragok dump all"), Builtin::Engine);
    assert_eq!(console::builtin("huragok view  third "), (Builtin::View, "third".to_string()));
    assert_eq!(console::builtin("huragok dump").1, "");
}

#[test]
fn command_file_runs_only_when_it_changes() {
    let mut w = Watch::new();
    assert!(!script::poll(&mut w));
    script::init(&mut w, 100);
    let looks: Vec<bool> = (0..61).map(|_| script::poll(&mut w)).collect();
    assert_eq!(looks.iter().filter(|x| **x).count(), 3);
    assert!(looks[0] && looks[30] && looks[60]);
    assert!(!script::changed(&mut w, 100));
    assert!(!script::changed(&mut w, 0));
    assert!(script::changed(&mut w, 101));
    assert!(!script::changed(&mut w, 101));
    script::run_now(&mut w, 102);
    assert!(!script::changed(&mut w, 102));
    let mut q = Lines::new();
    assert_eq!(script::run(&mut q, "# note\n  a b \n\n #x\nc"), 2);
    assert_eq!(console::take_all(&mut q), vec!["a b".to_string(), "c".to_string()]);
}

#[test]
fn log_lines_are_shown_by_their_shape() {
    let mut l = Log::new();
    let dim = "\x1b[38;2;128;128;128m";
    let reset = "\x1b[0m";
    let blue = "\x1b[38;2;97;175;239m";
    assert_eq!(
        log::emit(&mut l, "[freecam] ON"),
        format!("  {blue}\u{25CF}{reset} {blue}freecam  {reset} ON\n")
    );
    assert_eq!(
        log::emit(&mut l, "plain"),
        format!("  {dim}\u{2022}{reset} plain\n")
    );
    assert_eq!(log::emit(&mut l, "  more"), format!("      {dim}more{reset}\n"));
    assert_eq!(log::emit(&mut l, "  more"), format!("\r    {dim}repeated x2{reset}"));
    assert_eq!(log::emit(&mut l, "  more"), format!("\r    {dim}repeated x3{reset}"));
    assert_eq!(
        log::emit(&mut l, "[no end"),
        format!("\n  {dim}\u{2022}{reset} [no end\n")
    );
    assert_eq!(log::tag_color("pawnfx"), "\x1b[38;2;229;192;123m");
    assert_eq!(log::tag_color("possess"), "\x1b[38;2;215;119;87m");
    assert_eq!(log::tag_color("fault"), "\x1b[38;2;224;108;117m");
    let mut out = Vec::new();
    log::recent(&l, &mut out, 2);
    assert_eq!(out, vec!["  more".to_string(), "[no end".to_string()]);
}

#[test]
fn log_keeps_the_newest_lines() {
    let mut l = Log::new();
    for i in 0..205 {
        log::emit(&mut l, &format!("line {i}"));
    }
    let mut out = vec!["old".to_string()];
    log::recent(&l, &mut out, 1000);
    assert_eq!(out.len(), 200);
    assert_eq!(out[0], "line 5");
    assert_eq!(out[199], "line 204");
}

#[test]
fn banner_names_the_build() {
    let b = log::banner("12.abc");
    assert!(b.starts_with("\n  \x1b[1m\x1b[38;2;215;119;87m\u{25CF}\x1b[0m "));
    assert!(b.contains("(build 12.abc)"));
    assert_eq!(b.matches('\u{2500}').count(), 30);
    assert!(b.ends_with("world loads...\x1b[0m\n\n"));
}

fn view(x: f64) -> CamData {
    let mut c = CamData::new();
    c.x = x.to_bits();
    c
}

#[test]
fn paths_keep_the_first_views() {
    let mut p = Path::new();
    for i in 0..40 {
        let r = paths::add(&mut p, &view(i as f64));
        assert_eq!(r, if i < 32 { Some(i + 1) } else { None });
    }
    assert_eq!(paths::count(&p), 32);
    let k = paths::keyframes(&p);
    assert_eq!(k[31].x, 31.0f64.to_bits());
    assert_eq!(k[31].fov, 90.0f32.to_bits());
    paths::clear(&mut p);
    assert_eq!(paths::timeline(&p), (0, 0, false));
}

#[test]
fn playback_runs_to_the_end_and_stops() {
    let mut p = Path::new();
    let mut c = CamData::new();
    paths::add(&mut p, &view(1.0));
    assert_eq!(paths::toggle_play(&mut p, &mut c), None);
    assert!(!c.freecam);
    paths::add(&mut p, &view(2.0));
    assert_eq!(paths::toggle_play(&mut p, &mut c), Some(true));
    assert!(c.freecam);
    assert_eq!(paths::update(&mut p, 0.5f64.to_bits()), Some(false));
    assert_eq!(paths::timeline(&p), (2, 0.5f64.to_bits(), true));
    assert_eq!(paths::update(&mut p, 1.25f64.to_bits()), Some(true));
    assert_eq!(paths::timeline(&p), (2, 1.0f64.to_bits(), false));
    assert_eq!(paths::update(&mut p, 0), None);
    assert_eq!(paths::toggle_play(&mut p, &mut c), Some(true));
    assert_eq!(paths::toggle_play(&mut p, &mut c), Some(false));
}

#[test]
fn segments_hold_at_the_ends() {
    let mut p = Path::new();
    assert!(paths::segment(&p, 0).is_none());
    for i in 0..4 {
        paths::add(&mut p, &view(i as f64));
    }
    let at = |raw: usize| {
        let s = paths::segment(&p, raw).unwrap();
        (s.index, [s.k[0].x, s.k[1].x, s.k[2].x, s.k[3].x].map(f64::from_bits))
    };
    assert_eq!(at(0), (0, [0.0, 0.0, 1.0, 2.0]));
    assert_eq!(at(1), (1, [0.0, 1.0, 2.0, 3.0]));
    assert_eq!(at(2), (2, [1.0, 2.0, 3.0, 3.0]));
    assert_eq!(at(3), (2, [1.0, 2.0, 3.0, 3.0]));
    let mut c = CamData::new();
    let k = Kf { x: 1, y: 2, z: 3, pitch: 4, yaw: 5, roll: 6, fov: 7 };
    paths::show(&mut c, &k);
    assert_eq!((c.x, c.y, c.z, c.pitch, c.yaw, c.roll, c.fov), (1, 2, 3, 4, 5, 6, 7));
}

#[test]
fn rates_go_round_the_ring() {
    let mut m = Memory::new();
    let mut r = Ring::new();
    perf::tick(&mut r, &mut m, BASE);
    assert!(perf::samples(&r).is_empty());
    for i in 0..125 {
        put(&mut m, BASE + GAVERAGEFPS, (i as f32).to_bits() as u64, 4);
        perf::tick(&mut r, &mut m, BASE);
    }
    put(&mut m, BASE + GAVERAGEFPS, f32::NAN.to_bits() as u64, 4);
    perf::tick(&mut r, &mut m, BASE);
    put(&mut m, BASE + GAVERAGEFPS, 100001.0f32.to_bits() as u64, 4);
    perf::tick(&mut r, &mut m, BASE);
    perf::tick(&mut r, &mut m, 0);
    let s = perf::samples(&r);
    assert_eq!(s.len(), 120);
    assert_eq!(f32::from_bits(s[0]), 5.0);
    assert_eq!(f32::from_bits(s[119]), 124.0);
    assert_eq!(f32::from_bits(perf::current(&r)), 124.0);
}

#[test]
fn look_direction_is_limited() {
    let mut l = Look::new();
    look::seed(&mut l, 1.0f32.to_bits(), 0.5f32.to_bits());
    assert_eq!(look::yaw_pitch_rad(&l), (1.0f32.to_bits(), 0.5f32.to_bits()));
    look::add(&mut l, 2.0f32.to_bits(), 9.0f32.to_bits());
    let (yaw, pitch) = look::yaw_pitch_rad(&l);
    assert_eq!(f32::from_bits(yaw), 2.0);
    assert_eq!(f32::from_bits(pitch), 1.40);
    look::add(&mut l, 0, (-9.0f32).to_bits());
    assert_eq!(f32::from_bits(look::yaw_pitch_rad(&l).1), -1.40);
}

struct Desk {
    q: Queue,
    panel: Panel,
    m: Memory,
    path: Path,
    cam: CamData,
}

fn desk() -> Desk {
    let mut m = Memory::new();
    put(&mut m, BASE + DRAWCONTROLS_SLOT, BASE + DRAWCONTROLS, 8);
    Desk { q: Queue::new(), panel: Panel::new(), m, path: Path::new(), cam: CamData::new() }
}

fn poll(d: &mut Desk, k: &Keys) -> bool {
    input::poll_hotkeys(
        k, &mut d.q, &mut d.panel, &mut d.m, BASE, DETOUR, &mut d.path, &mut d.cam,
        0.9f32.to_bits(), 1.1f32.to_bits(),
    )
}

#[test]
fn shortcuts_need_ctrl() {
    let all = [
        input::K_B, input::K_P, input::K_I, input::VK_HOME, input::VK_END, input::VK_F5,
        input::VK_F6, input::VK_OEM_COMMA, input::VK_OEM_PERIOD, input::VK_OEM_2, input::K_K,
        input::K_G,
    ];
    let mut d = desk();
    assert!(!poll(&mut d, &keys(&all, &[])));
    assert!(!cmd::has_pending(&d.q));
    assert!(!d.panel.shown && paths::count(&d.path) == 0);
    assert!(poll(&mut d, &keys(&all, &[input::VK_LCTRL])));
    assert_eq!(
        cmd::take_all(&mut d.q),
        vec![
            Cmd::Pause,
            Cmd::ImguiInput,
            Cmd::CineOn,
            Cmd::CineOff,
            Cmd::FadeOut,
            Cmd::FadeIn,
            Cmd::Slomo(0.9f32.to_bits()),
            Cmd::Slomo(1.1f32.to_bits()),
            Cmd::Slomo(1.0f32.to_bits()),
        ]
    );
    assert!(d.panel.shown && paths::count(&d.path) == 1);
    assert_eq!(d.m.read_u64(BASE + DRAWCONTROLS_SLOT), Some(DETOUR));
}

#[test]
fn path_shortcuts() {
    let mut d = desk();
    let k = keys(&[input::K_K], &[input::VK_RCTRL]);
    poll(&mut d, &k);
    poll(&mut d, &k);
    poll(&mut d, &keys(&[input::K_J], &[input::VK_RCTRL]));
    assert!(d.path.playing && d.cam.freecam);
    poll(&mut d, &keys(&[input::K_L], &[input::VK_RCTRL]));
    assert!(!d.path.playing && paths::count(&d.path) == 0);
}

#[test]
fn time_steps_stay_in_range() {
    let mut d = desk();
    let k = keys(&[input::VK_OEM_COMMA, input::VK_OEM_PERIOD], &[input::VK_LCTRL]);
    input::poll_hotkeys(
        &k, &mut d.q, &mut d.panel, &mut d.m, BASE, DETOUR, &mut d.path, &mut d.cam,
        (-0.05f32).to_bits(), 4.05f32.to_bits(),
    );
    assert_eq!(
        cmd::take_all(&mut d.q),
        vec![Cmd::Slomo(0.05f32.to_bits()), Cmd::Slomo(4.0f32.to_bits())]
    );
}

#[test]
fn keys_fly_the_free_camera() {
    let mut c = CamData::new();
    let f = input::poll_freecam(&keys(&[], &[input::K_W]), &mut c);
    assert!(f.moves.is_empty() && !f.toggled);
    let f = input::poll_freecam(&keys(&[input::VK_INSERT], &[input::K_W, input::VK_LSHIFT]), &mut c);
    assert!(f.toggled && f.fast && c.freecam && c.seed);
    assert_eq!(f.moves, vec![Move::Forward]);
    assert!(input::edge(&keys(&[input::K_A], &[]), input::K_A));
    assert!(!input::held(&keys(&[input::K_A], &[]), input::K_A));
    c.seed = false;
    // mouse-look needs Ctrl
    let f = input::poll_freecam(&keys(&[input::K_M], &[]), &mut c);
    assert!(!f.mouse_toggled && !c.mouse);
    let f = input::poll_freecam(&keys(&[input::K_M], &[input::VK_LCTRL]), &mut c);
    assert!(f.mouse_toggled && c.mouse && !c.seed);
    assert_eq!(f.moves, vec![Move::Down, Move::Mouse]);
    let down = [
        input::K_S, input::K_D, input::K_A, input::VK_SPACE, input::K_Q, input::VK_UP,
        input::VK_DOWN, input::VK_LEFT, input::VK_RIGHT, input::VK_OEM_4, input::VK_OEM_6,
        input::K_Z, input::K_C, input::K_X,
    ];
    let f = input::poll_freecam(&keys(&[], &down), &mut c);
    assert_eq!(
        f.moves,
        vec![
            Move::Back,
            Move::Right,
            Move::Left,
            Move::Up,
            Move::Down,
            Move::LookUp,
            Move::LookDown,
            Move::LookLeft,
            Move::LookRight,
            Move::Mouse,
            Move::FovIn,
            Move::FovOut,
            Move::RollLeft,
            Move::RollRight,
            Move::RollReset,
        ]
    );
    let f = input::poll_freecam(&keys(&[input::VK_INSERT], &[input::K_W]), &mut c);
    assert!(f.toggled && !c.freecam && !c.seed && f.moves.is_empty());
}

#[test]
fn movements_stay_in_range() {
    let sums = Sums {
        x: 1,
        y: 2,
        z: 3,
        pitch: 120.0f64.to_bits(),
        yaw: 5,
        roll: 6,
        fov: 200.0f32.to_bits(),
    };
    let mut c = CamData::new();
    input::settle(&mut c, Move::LookUp, &sums);
    assert_eq!(f64::from_bits(c.pitch), 89.0);
    input::settle(&mut c, Move::FovOut, &sums);
    assert_eq!(f32::from_bits(c.fov), 140.0);
    input::settle(&mut c, Move::Mouse, &sums);
    assert_eq!((f64::from_bits(c.pitch), c.yaw), (89.0, 5));
    let low = Sums { pitch: (-100.0f64).to_bits(), fov: 3.0f32.to_bits(), ..sums };
    input::settle(&mut c, Move::LookDown, &low);
    assert_eq!(f64::from_bits(c.pitch), -89.0);
    input::settle(&mut c, Move::FovIn, &low);
    assert_eq!(f32::from_bits(c.fov), 20.0);
    input::settle(&mut c, Move::Right, &sums);
    assert_eq!((c.x, c.y, c.z), (1, 2, 0));
    input::settle(&mut c, Move::Forward, &sums);
    assert_eq!((c.x, c.y, c.z), (1, 2, 3));
    input::settle(&mut c, Move::RollLeft, &sums);
    assert_eq!(c.roll, 6);
    input::settle(&mut c, Move::RollReset, &sums);
    assert_eq!(c.roll, 0);
}

#[test]
fn panel_callback_is_replaced_once() {
    let mut d = desk();
    assert!(imgui::toggle(&mut d.panel, &mut d.m, BASE, DETOUR) == imgui::Install::Done);
    assert!(d.panel.shown && d.panel.hooked && d.panel.original == BASE + DRAWCONTROLS);
    assert!(imgui::toggle(&mut d.panel, &mut d.m, BASE, 1) == imgui::Install::Already);
    assert!(!d.panel.shown);
    assert_eq!(d.m.read_u64(BASE + DRAWCONTROLS_SLOT), Some(DETOUR));
    let mut other = Panel::new();
    let mut m = Memory::new();
    assert!(imgui::install(&mut other, &mut m, BASE, DETOUR) == imgui::Install::Faulted);
    assert!(!other.hooked);
    put(&mut m, BASE + DRAWCONTROLS_SLOT, 0x77, 8);
    assert!(
        imgui::install(&mut other, &mut m, BASE, DETOUR) == (imgui::Install::Mismatch { found: 0x77 })
    );
    assert!(other.hooked);
    assert_eq!(m.read_u64(BASE + DRAWCONTROLS_SLOT), Some(0x77));
}

#[test]
fn widget_faults_are_reported_once() {
    let mut p = Panel::new();
    assert!(imgui::note_fault(&mut p, Part::FpsGraph));
    assert!(imgui::note_fault(&mut p, Part::Skull));
    assert!(!imgui::note_fault(&mut p, Part::FpsGraph));
    assert_eq!(imgui::name_of(Part::Skull), "skull checkbox");
    assert_eq!(imgui::name_of(Part::Whole), "panel");
    assert_eq!(imgui::part_of(Widget::Health(0)), Some(Part::HealthBar));
    assert_eq!(imgui::part_of(Widget::NoPawn), None);
}

#[test]
fn panel_sections_in_order() {
    let titles: Vec<&str> = (0..8).map(|i| imgui::header(i).title).collect();
    assert_eq!(
        titles,
        vec![
            "Stats", "Campaign", "Machinima", "Timeline", "Character / Pawn", "Pawn FX", "Skulls",
            "UI"
        ]
    );
    let h = imgui::header(0);
    assert_eq!((h.id, h.flags), (0xc0de_0001, 0x3a));
    let h = imgui::header(7);
    assert_eq!((h.id, h.flags), (0xc0de_0008, 0x1a));
}

#[test]
fn panel_shows_what_is_known() {
    let mut b = Board::new();
    let ring = Ring::new();
    let mut info = Info::new();
    let path = Path::new();
    let stats = |b: &Board, info: &Info| imgui::widgets(Section::Stats, b, &ring, info, &path);
    assert_eq!(stats(&b, &info), vec![Widget::NoPawn, Widget::Fps(0), Widget::FpsGraph]);
    refresh(&mut b, Some((5, 6)));
    assert_eq!(
        stats(&b, &info),
        vec![Widget::Health(5), Widget::Shield(6), Widget::Counting, Widget::Fps(0), Widget::FpsGraph]
    );
    note_count(&mut b, Some((3, 9)));
    let w = stats(&b, &info)[2];
    assert_eq!(w, Widget::Enemies(3, 9));
    assert_eq!(imgui::line(w, &info), Some("Enemies  3 alive / 9 total".to_string()));
    let campaign = |info: &Info| imgui::widgets(Section::Campaign, &b, &ring, info, &path);
    let button = Widget::Button(Action::Run(Cmd::DiagMission));
    assert_eq!(campaign(&info), vec![Widget::Loading, button]);
    info.level = "Halo (a30)".to_string();
    info.difficulty = "Heroic".to_string();
    info.checkpoint = 4;
    info.segment = 0;
    let w = campaign(&info);
    assert_eq!(
        w,
        vec![Widget::Mission, Widget::Difficulty, Widget::Checkpoint(4), Widget::Segment(0), button]
    );
    let lines: Vec<Option<String>> = w.iter().map(|x| imgui::line(*x, &info)).collect();
    assert_eq!(lines[0], Some("Mission: Halo (a30)".to_string()));
    assert_eq!(lines[1], Some("Difficulty: Heroic".to_string()));
    assert_eq!(lines[2], Some("Checkpoint: 4".to_string()));
    assert_eq!(lines[3], Some("Segment: 0".to_string()));
    assert_eq!(lines[4], None);
    info.level = "a\0b".to_string();
    assert_eq!(imgui::line(Widget::Mission, &info), None);
    assert!(imgui::can_draw("ab") && !imgui::can_draw("a\0"));
    assert_eq!(
        imgui::line(Widget::Keyframes(2, true), &info),
        Some("2 keyframes   playing".to_string())
    );
    assert_eq!(imgui::widgets(Section::Machinima, &b, &ring, &info, &path).len(), 12);
    assert_eq!(imgui::widgets(Section::Timeline, &b, &ring, &info, &path).len(), 6);
    assert_eq!(imgui::widgets(Section::Character, &b, &ring, &info, &path).len(), 9);
    assert_eq!(imgui::widgets(Section::PawnFx, &b, &ring, &info, &path).len(), 12);
    assert_eq!(imgui::widgets(Section::Skulls, &b, &ring, &info, &path).len(), 53);
    assert_eq!(imgui::widgets(Section::Ui, &b, &ring, &info, &path).len(), 2);
}

#[test]
fn bars_fill_within_bounds() {
    assert_eq!(imgui::bar_fill(150.0f32.to_bits(), 1.5f32.to_bits()), 1.0f32.to_bits());
    assert_eq!(imgui::bar_fill(25.0f32.to_bits(), 0.25f32.to_bits()), 0.25f32.to_bits());
    assert_eq!(imgui::bar_fill(f32::NAN.to_bits(), 0.5f32.to_bits()), 0);
}

#[test]
fn buttons_do_what_they_say() {
    let mut d = desk();
    let mut go = |a: Action, d: &mut Desk| {
        imgui::press(a, &mut d.panel, &mut d.q, &mut d.path, &mut d.cam)
    };
    assert_eq!(imgui::label(Action::Run(Cmd::Teleport), &d.panel), "Teleport to camera");
    assert_eq!(imgui::label(Action::Run(Cmd::BloodCov), &d.panel), "Blood: Covenant");
    go(Action::Run(Cmd::Teleport), &mut d);
    assert_eq!(cmd::take_all(&mut d.q), vec![Cmd::Teleport]);
    d.cam.fov = 5;
    d.cam.fov_locked = true;
    go(Action::FovReset, &mut d);
    assert!(d.cam.fov == 90.0f32.to_bits() && !d.cam.fov_locked);
    go(Action::AddKeyframe, &mut d);
    go(Action::AddKeyframe, &mut d);
    go(Action::PlayStop, &mut d);
    assert!(d.path.playing && d.cam.freecam);
    go(Action::ClearPath, &mut d);
    assert!(!d.path.playing && paths::count(&d.path) == 0);
    assert_eq!(imgui::label(Action::KeyframeList, &d.panel), "Show keyframe list");
    go(Action::KeyframeList, &mut d);
    assert_eq!(imgui::label(Action::KeyframeList, &d.panel), "Hide keyframe list");
    go(Action::Console, &mut d);
    assert_eq!(imgui::label(Action::Console, &d.panel), "Hide console");
    imgui::keyframes_drawn(&mut d.panel, true);
    imgui::console_drawn(&mut d.panel, false);
    assert!(d.panel.show_keyframes && !d.panel.show_console);
    imgui::keyframes_drawn(&mut d.panel, false);
    assert!(!d.panel.show_keyframes);
}

#[test]
fn checkboxes_are_independent() {
    let mut d = desk();
    let mut lines = Lines::new();
    let mut set = |k: Check, on: bool, d: &mut Desk, lines: &mut Lines| {
        imgui::check(k, on, &mut d.panel, &mut d.q, lines, &mut d.cam);
        assert_eq!(imgui::checked(k, &d.panel, &d.cam), on);
    };
    set(Check::FreeCam, true, &mut d, &mut lines);
    assert!(d.cam.freecam && d.cam.seed);
    set(Check::FreeCam, false, &mut d, &mut lines);
    set(Check::MouseLook, true, &mut d, &mut lines);
    set(Check::Flashlight, true, &mut d, &mut lines);
    set(Check::Skull(0), true, &mut d, &mut lines);
    set(Check::Skull(1), true, &mut d, &mut lines);
    set(Check::Skull(52), true, &mut d, &mut lines);
    set(Check::Skull(52), false, &mut d, &mut lines);
    assert!(imgui::checked(Check::Skull(0), &d.panel, &d.cam));
    assert!(!imgui::checked(Check::Skull(2), &d.panel, &d.cam));
    assert_eq!(
        cmd::take_all(&mut d.q),
        vec![Cmd::Freeze, Cmd::Unfreeze, Cmd::NightVision(true)]
    );
    assert_eq!(
        console::take_all(&mut lines),
        vec![
            "hs:unit_set_integrated_flashlight (player0) true".to_string(),
            "hs:skull_enable skull_third_person true".to_string(),
            "hs:skull_enable skull_tough_luck true".to_string(),
            "hs:skull_enable skull_tough_luck false".to_string(),
        ]
    );
    assert_eq!(imgui::skull(48), ("That's Just Wrong", "skull_thats_just_wrong"));
}

#[test]
fn sliders_move() {
    let mut d = desk();
    imgui::slide(Slider::Fov, 60.0f32.to_bits(), &mut d.q, &mut d.cam);
    assert!(d.cam.fov == 60.0f32.to_bits() && d.cam.fov_locked);
    imgui::slide(Slider::Time, 7, &mut d.q, &mut d.cam);
    assert_eq!(cmd::take_all(&mut d.q), vec![Cmd::Slomo(7)]);
    assert_eq!(imgui::range(Slider::Fov), (20.0f32.to_bits(), 140.0f32.to_bits()));
    assert_eq!(imgui::range(Slider::Time), (0.05f32.to_bits(), 4.0f32.to_bits()));
}

#[test]
fn one_frame_draws_every_section_and_ends() {
    let mut p = Panel::new();
    p.show_console = true;
    let n = [5, 2, 12, 6, 9, 12, 53, 2];
    let mut at = Place::Begin;
    let mut drawn = Vec::new();
    while at != Place::Done {
        drawn.push(at);
        let (yes, count) = match at {
            Place::Begin => (true, 0),
            Place::Header(i) => (i != 6, n[i]),
            Place::Item(i, _) => (false, n[i]),
            _ => (false, 0),
        };
        at = imgui::draw_panel(at, yes, count, &p);
    }
    let items = drawn.iter().filter(|x| matches!(x, Place::Item(..))).count();
    assert_eq!(items, 48);
    assert_eq!(drawn.iter().filter(|x| matches!(x, Place::Header(_))).count(), 8);
    assert_eq!(drawn.iter().filter(|x| **x == Place::End).count(), 1);
    assert_eq!(drawn.last(), Some(&Place::ConsoleWindow));
    assert_eq!(imgui::draw_panel(Place::Begin, false, 0, &p), Place::Skip);
    assert_eq!(imgui::draw_panel(Place::Skip, false, 0, &p), Place::Done);
    p.show_keyframes = true;
    assert_eq!(imgui::draw_panel(Place::End, false, 0, &p), Place::KeyframeWindow);
}

#[test]
fn input_box_is_queued_and_cleared() {
    let mut lines = Lines::new();
    let mut buf: Vec<u8> = vec![0; 256];
    for (i, b) in b"  hs:x  \0junk".iter().enumerate() {
        buf[i] = *b;
    }
    assert!(imgui::enter(&mut buf, &mut lines));
    assert_eq!(buf[0], 0);
    assert!(!imgui::enter(&mut buf, &mut lines));
    buf[0] = b' ';
    buf[1] = 0;
    assert!(!imgui::enter(&mut buf, &mut lines));
    buf[0] = 0xff;
    buf[1] = b'k';
    buf[2] = 0;
    assert!(imgui::enter(&mut buf, &mut lines));
    assert_eq!(
        console::take_all(&mut lines),
        vec!["hs:x".to_string(), "\u{fffd}k".to_string()]
    );
}

#[test]
fn drawing_surface_is_looked_up() {
    let mut m = Memory::new();
    assert!(imgui::canvas(&mut m, BASE).is_none());
    put(&mut m, BASE + GIMGUI_PTR, 0, 8);
    assert!(imgui::canvas(&mut m, BASE) == Some(None));
    assert!(imgui::scroll(&mut m, BASE) == Some(None));
    put(&mut m, BASE + GIMGUI_PTR, 0x1000, 8);
    put(&mut m, 0x1000 + 0x3ed8, 0x9000, 8);
    put(&mut m, 0x9000 + 0x298, 0xa000, 8);
    put(&mut m, 0x9000 + 0x100, 0x0000_0002_0000_0001, 8);
    put(&mut m, 0x9000 + 0x88, 3, 4);
    put(&mut m, 0x9000 + 0x90, 4, 4);
    put(&mut m, 0x9000 + 0x250, 5, 4);
    let c = imgui::canvas(&mut m, BASE).unwrap().unwrap();
    assert_eq!((c.window, c.list, c.x, c.y), (0x9000, 0xa000, 1, 2));
    assert_eq!(imgui::scroll(&mut m, BASE), Some(Some((3, 4))));
    assert_eq!(imgui::content_right(&mut m, 0x9000), Some(5));
    put(&mut m, 0x9000 + 0x298, 0, 8);
    assert!(imgui::canvas(&mut m, BASE) == Some(None));
    assert!(imgui::follows(9.0f32.to_bits(), 9.0f32.to_bits()));
    assert!(!imgui::follows(8.0f32.to_bits(), 9.0f32.to_bits()));
}

#[test]
fn graph_top_is_bounded() {
    let b = |v: &[f32]| {
        f32::from_bits(imgui::graph_peak(&v.iter().map(|x| x.to_bits()).collect()))
    };
    assert_eq!(b(&[]), 120.0);
    assert_eq!(b(&[60.0, f32::NAN, 144.0, 100.0]), 144.0);
    assert_eq!(b(&[1000.0]), 360.0);
}

#[test]
fn commands_drain_without_reentering() {
    let mut s = PcHook::new();
    let mut q = Queue::new();
    assert!(pc::pc_detour(&mut s, &mut q).is_none());
    cmd::push(&mut q, Cmd::Pause);
    assert_eq!(pc::pc_detour(&mut s, &mut q), Some(vec![Cmd::Pause]));
    cmd::push(&mut q, Cmd::Fly);
    assert!(pc::pc_detour(&mut s, &mut q).is_none());
    pc::drained(&mut s);
    assert_eq!(pc::pc_detour(&mut s, &mut q), Some(vec![Cmd::Fly]));
}

#[test]
fn controller_is_detoured_once() {
    let mut m = Memory::new();
    let mut s = PcHook::new();
    assert!(!pc::install(&mut s, &mut m, 0, DETOUR));
    assert!(!pc::install(&mut s, &mut m, 0x5000, DETOUR));
    put(&mut m, 0x5000, 0x6000, 8);
    put(&mut m, 0x6000 + 8 * PROCESSEVENT_SLOT, 0x42, 8);
    assert!(pc::install(&mut s, &mut m, 0x5000, DETOUR));
    assert_eq!(s.original, 0x42);
    assert_eq!(m.read_u64(0x6000 + 8 * PROCESSEVENT_SLOT), Some(DETOUR));
    assert!(!pc::install(&mut s, &mut m, 0x5000, 1));
    assert_eq!(hook_vtable_slot(&mut m, 0x5000, PROCESSEVENT_SLOT, 7), Some(DETOUR));
    assert_eq!(hook_vtable_slot(&mut m, 0x5000, 0, 7), None);
}

/// A world with one class of the given name, its functions, and one live object of it.
fn camera_world(class: &str, functions: &[&str]) -> (Memory, u64, u64, Vec<u64>) {
    let mut m = Memory::new();
    let block = 0x2_0000_0000;
    let chunk = 0x3_0000_1000;
    put(&mut m, BASE + FNAMEPOOL + NP_BLOCKS, block, 8);
    put(&mut m, BASE + GUOBJECTARRAY + 0x10, 0x3_0000_0000, 8);
    put(&mut m, BASE + GUOBJECTARRAY + 0x2c, 1, 4);
    put(&mut m, 0x3_0000_0000, chunk, 8);
    let mut id = 0;
    let mut slots = 0;
    let mut object = |m: &mut Memory, name: &str, cls: u64| {
        let o = 0x4_0000_0000 + slots * 0x1000;
        for i in 0..0x400 {
            m.load(o + i, 0);
        }
        put(m, block + 2 * id, (name.len() as u64) << 6, 2);
        for (i, b) in name.bytes().enumerate() {
            m.load(block + 2 * id + 2 + i as u64, b);
        }
        put(m, o, 0x5_0000_0000, 8);
        put(m, o + 0x10, cls, 8);
        put(m, o + 0x18, id, 4);
        put(m, chunk + slots * 0x18, o, 8);
        id += 2 + name.len() as u64;
        slots += 1;
        put(m, BASE + GUOBJECTARRAY + 0x24, slots, 4);
        o
    };
    let meta = object(&mut m, "Class", 0);
    let fmeta = object(&mut m, "Function", meta);
    let cls = object(&mut m, class, meta);
    let mut fs = Vec::new();
    for f in functions {
        let o = object(&mut m, f, fmeta);
        let first = m.read_u64(cls + 0x48).unwrap();
        put(&mut m, o + 0x28, first, 8);
        put(&mut m, cls + 0x48, o, 8);
        fs.push(o);
    }
    let manager = object(&mut m, "Manager_1", cls);
    put(&mut m, 0x5_0000_0000 + 8 * PROCESSEVENT_SLOT, 0x51, 8);
    put(&mut m, 0x5_0000_0000 + 8 * GETFOVANGLE_SLOT, 0x52, 8);
    (m, manager, cls, fs)
}

const CAMERA_FUNCTIONS: [&str; 3] = ["BlueprintUpdateCamera", "GetCameraLocation", "GetFOVAngle"];

#[test]
fn camera_manager_is_detoured() {
    let (mut m, manager, _, fs) = camera_world("BP_BlamCameraManager_C", &CAMERA_FUNCTIONS);
    let mut s = CamHook::new();
    assert!(!camera::installed(&s));
    let done = camera::Install::Done { manager, fallback: false };
    assert!(camera::install(&mut s, &mut m, BASE, DETOUR, DETOUR + 1) == done);
    assert!(camera::installed(&s));
    assert_eq!((s.original, s.original_fov), (0x51, 0x52));
    assert_eq!((s.bp_update, s.get_location, s.get_rotation, s.get_fov), (fs[0], fs[1], 0, fs[2]));
    assert_eq!(m.read_u64(0x5_0000_0000 + 8 * PROCESSEVENT_SLOT), Some(DETOUR));
    assert_eq!(m.read_u64(0x5_0000_0000 + 8 * GETFOVANGLE_SLOT), Some(DETOUR + 1));
    assert!(camera::install(&mut s, &mut m, BASE, 1, 2) == camera::Install::Already);
}

#[test]
fn another_camera_will_do_after_a_long_wait() {
    let (mut m, manager, _, _) = camera_world("PlayerCameraManager", &CAMERA_FUNCTIONS);
    let mut s = CamHook::new();
    s.attempts = 199;
    let quiet = camera::Install::Waiting { announce: false };
    assert!(camera::install(&mut s, &mut m, BASE, DETOUR, 1) == quiet);
    assert!(
        camera::install(&mut s, &mut m, BASE, DETOUR, 1) == (camera::Install::Waiting { announce: true })
    );
    s.attempts = 1299;
    assert!(camera::install(&mut s, &mut m, BASE, DETOUR, 1) == quiet);
    let done = camera::Install::Done { manager, fallback: true };
    assert!(camera::install(&mut s, &mut m, BASE, DETOUR, 1) == done);
}

#[test]
fn camera_without_an_update_is_given_up() {
    let (mut m, _, cls, _) = camera_world("BlamCameraManager", &["Other"]);
    let mut s = CamHook::new();
    let none = camera::Install::NoUpdate { class: cls };
    assert!(camera::install(&mut s, &mut m, BASE, DETOUR, 1) == none);
    assert!(camera::installed(&s));
    assert_eq!(m.read_u64(0x5_0000_0000 + 8 * PROCESSEVENT_SLOT), Some(0x51));
    let mut empty = Memory::new();
    let mut s = CamHook::new();
    assert!(camera::install(&mut s, &mut empty, BASE, DETOUR, 1) == camera::Install::Faulted);
}

#[test]
fn free_view_replaces_the_game_view() {
    let mut m = Memory::new();
    let parms = 0x8000;
    let manager = 0x9000;
    for i in 0..0x40 {
        m.load(parms + i, 0);
    }
    for i in 0..0x400 {
        m.load(manager + i, 0);
    }
    let mut s = CamHook::new();
    s.bp_update = 0x77;
    assert_eq!(camera::see_update(&mut s, 0x78, parms), None);
    assert_eq!(camera::see_update(&mut s, 0x77, 0), None);
    assert_eq!(camera::see_update(&mut s, 0x77, parms), Some(true));
    assert_eq!(camera::see_update(&mut s, 0x77, parms), Some(false));
    assert!(camera::note_alive(&mut s) && !camera::note_alive(&mut s));
    assert!(camera::note_fault(&mut s) && !camera::note_fault(&mut s));
    let mut c = CamData::new();
    assert!(camera::cam_override(&mut s, &mut m, &c, manager, parms) == Override::GameView);
    assert_eq!(m.read_u32(manager + 0x3b0), Some(0));
    assert_eq!(camera::get_fov_detour(&s), None);
    c.fov_locked = true;
    c.fov = 55.0f32.to_bits();
    assert!(camera::cam_override(&mut s, &mut m, &c, manager, parms) == Override::GameView);
    assert_eq!(m.read_u32(manager + 0x3b0), Some(c.fov));
    assert_eq!(m.read_u32(manager + 0x3b4), Some(c.fov));
    assert_eq!(camera::get_fov_detour(&s), Some(c.fov));
    c.freecam = true;
    c.seed = true;
    assert!(camera::cam_override(&mut s, &mut m, &c, manager, parms) == Override::Seed);
    camera::reading_pov(&mut s, true);
    assert_eq!(camera::get_fov_detour(&s), None);
    assert_eq!(camera::see_update(&mut s, 0x77, parms), None);
    camera::reading_pov(&mut s, false);
    camera::adopt_pov(&mut c, [1, 2, 3], [4, 5, 6], 7);
    assert!(!c.seed);
    assert!(camera::cam_override(&mut s, &mut m, &c, manager, parms) == Override::FreeView);
    for i in 0..6 {
        assert_eq!(m.read_u64(parms + 8 + 8 * i), Some(i + 1));
    }
    assert_eq!(m.read_u32(parms + 0x38), Some(7));
    assert_eq!(m.read_u8(parms + 0x3c), Some(1));
    assert!(camera::cam_override(&mut s, &mut m, &c, 0x1, parms) == Override::Faulted);
    assert!(!camera::write_pov(&mut m, &c, 0x1));
}
