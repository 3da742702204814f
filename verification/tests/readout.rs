//! What commands come down to, target picking, and the readouts.

use huragok::campaign;
use huragok::campaign::{Answer, Info};
use huragok::cmd::Cmd;
use huragok::dump;
use huragok::dump::{Category, Roster, Row};
use huragok::look::Look;
use huragok::memory::Memory;
use huragok::offsets::{FNAMEPOOL, GUOBJECTARRAY, NP_BLOCKS, PROCESSEVENT_SLOT};
use huragok::pawn;
use huragok::pawn::body;
use huragok::pawn::calls;
use huragok::pawn::{Callee, PawnState, Work};
use huragok::possess::Possess;
use huragok::possess::target;
use huragok::possess::target::{Facing, Found, Sighting};
use huragok::state::CamData;
use huragok::stats;
use huragok::stats::{Board, Swept};
use huragok::ue::process_event::Call;

const BASE: u64 = 0x1_4000_0000;
const BLOCK: u64 = 0x2_0000_0000;
const CHUNK: u64 = 0x3_0000_1000;
const VTABLE: u64 = 0x5_0000_0000;

fn put(m: &mut Memory, a: u64, v: u64, n: u64) {
    for i in 0..n {
        m.load(a.wrapping_add(i), (v >> (8 * i)) as u8);
    }
}

struct World {
    m: Memory,
    names: u64,
    slots: u64,
    meta: u64,
    fmeta: u64,
}

impl World {
    fn new() -> World {
        let mut m = Memory::new();
        put(&mut m, BASE + FNAMEPOOL + NP_BLOCKS, BLOCK, 8);
        put(&mut m, BASE + GUOBJECTARRAY + 0x10, 0x3_0000_0000, 8);
        put(&mut m, BASE + GUOBJECTARRAY + 0x24, 0, 4);
        put(&mut m, BASE + GUOBJECTARRAY + 0x2c, 1, 4);
        put(&mut m, 0x3_0000_0000, CHUNK, 8);
        put(&mut m, VTABLE + 8 * PROCESSEVENT_SLOT, 0x7777, 8);
        let mut w = World { m, names: 0, slots: 0, meta: 0, fmeta: 0 };
        w.meta = w.object("Class", 0);
        let meta = w.meta;
        w.fmeta = w.object("Function", meta);
        w
    }

    fn object(&mut self, name: &str, class: u64) -> u64 {
        let o = 0x4_0000_0000 + self.slots * 0x1000;
        for i in 0..0x500 {
            self.m.load(o + i, 0);
        }
        let id = self.names;
        put(&mut self.m, BLOCK + 2 * id, (name.len() as u64) << 6, 2);
        for (i, b) in name.bytes().enumerate() {
            self.m.load(BLOCK + 2 * id + 2 + i as u64, b);
        }
        self.names += 2 + name.len() as u64;
        put(&mut self.m, o, VTABLE, 8);
        put(&mut self.m, o + 0x10, class, 8);
        put(&mut self.m, o + 0x18, id, 4);
        put(&mut self.m, CHUNK + self.slots * 0x18, o, 8);
        self.slots += 1;
        put(&mut self.m, BASE + GUOBJECTARRAY + 0x24, self.slots, 4);
        o
    }

    fn class(&mut self, name: &str, parent: u64) -> u64 {
        let meta = self.meta;
        let c = self.object(name, meta);
        put(&mut self.m, c + 0x40, parent, 8);
        c
    }

    fn function(&mut self, name: &str, class: u64) -> u64 {
        let fmeta = self.fmeta;
        let f = self.object(name, fmeta);
        let first = self.m.read_u64(class + 0x48).unwrap();
        put(&mut self.m, f + 0x28, first, 8);
        put(&mut self.m, class + 0x48, f, 8);
        f
    }
}

fn steps(w: &Work) -> Vec<(&'static str, Vec<u8>, i32)> {
    match w {
        Work::Calls { steps, .. } => {
            steps.iter().map(|s| (s.name, s.parms.clone(), s.size)).collect()
        }
        _ => panic!("no calls"),
    }
}

#[test]
fn commands_become_calls() {
    let mut s = PawnState::new();
    let cam = CamData::new();
    pawn::set_pc(&mut s, 0x1122);
    assert_eq!(pawn::pc(&s), 0x1122);
    let w = pawn::execute(&mut s, 0x1122, Cmd::Freeze, &cam);
    assert!(matches!(&w, Work::Calls { on: Callee::Controller, guarded: false, .. }));
    assert_eq!(
        steps(&w),
        vec![
            ("DisableInput", vec![0x22, 0x11, 0, 0, 0, 0, 0, 0], 8),
            ("SetIgnoreMoveInput", vec![1], 1),
            ("SetIgnoreLookInput", vec![1], 1),
        ]
    );
    let w = pawn::execute(&mut s, 1, Cmd::CineOff, &cam);
    assert_eq!(steps(&w), vec![("SetCinematicMode", vec![0, 1, 1, 1, 1], 5)]);
    let w = pawn::execute(&mut s, 1, Cmd::God, &cam);
    assert!(matches!(&w, Work::Calls { on: Callee::Pawn, guarded: false, .. }));
    assert_eq!(steps(&w), vec![("SetCanBeDamaged", vec![0], 1)]);
    let w = pawn::execute(&mut s, 1, Cmd::SimFreeze, &cam);
    assert!(matches!(&w, Work::Calls { on: Callee::Controller, guarded: true, .. }));
    let block = pawn::blam_pause(true);
    assert_eq!(block[0].parms[8], 1);
    assert_eq!(block[0].size, 9);
    let w = pawn::execute(&mut s, 1, Cmd::CamoOn, &cam);
    assert_eq!(steps(&w).len(), 3);
    assert!(matches!(pawn::execute(&mut s, 1, Cmd::FadeOut, &cam), Work::Fade(true)));
    assert!(matches!(pawn::execute(&mut s, 1, Cmd::FullbodyOn, &cam), Work::ThirdPerson(true)));
    assert!(matches!(pawn::execute(&mut s, 1, Cmd::ImguiInput, &cam), Work::ToggleInput));
    assert!(matches!(pawn::execute(&mut s, 1, Cmd::NightVision(false), &cam), Work::NightVision(false)));
    assert!(matches!(pawn::execute(&mut s, 1, Cmd::DiagTime, &cam), Work::DiagTime));
    assert!(matches!(pawn::execute(&mut s, 1, Cmd::DiagMission, &cam), Work::DiagMission));
}

#[test]
fn teleport_goes_to_the_camera() {
    let mut cam = CamData::new();
    cam.x = 1.5f64.to_bits();
    cam.z = 2.5f64.to_bits();
    cam.pitch = 9.0f64.to_bits();
    cam.yaw = 45.0f64.to_bits();
    let t = &pawn::pawn_fx(Cmd::Teleport, &cam)[0];
    assert_eq!((t.name, t.size), ("K2_TeleportTo", 49));
    assert_eq!(t.parms[0..8], 1.5f64.to_le_bytes());
    assert_eq!(t.parms[16..24], 2.5f64.to_le_bytes());
    assert_eq!(t.parms[24..32], [0; 8]);
    assert_eq!(t.parms[32..40], 45.0f64.to_le_bytes());
}

#[test]
fn scale_and_time_are_held() {
    let mut s = PawnState::new();
    let cam = CamData::new();
    assert_eq!(pawn::hold_time(&s), None);
    assert_eq!(pawn::time_dilation(&s), 1.0f32.to_bits());
    let half = 0.5f32.to_bits();
    assert!(matches!(
        pawn::execute(&mut s, 1, Cmd::Slomo(half), &cam),
        Work::TimeScale { report: true, .. }
    ));
    assert!(matches!(
        pawn::execute(&mut s, 1, Cmd::Slomo(half), &cam),
        Work::TimeScale { report: false, .. }
    ));
    assert!(matches!(pawn::execute(&mut s, 1, Cmd::ScaleGiant, &cam), Work::Done));
    assert_eq!(pawn::hold_time(&s), Some(half));
    assert_eq!(pawn::scale(&s), 3.0f64.to_bits());
    pawn::execute(&mut s, 1, Cmd::ScaleTiny, &cam);
    assert_eq!(pawn::scale(&s), 0.3f64.to_bits());
    assert!(body::holds_anything(&s));
    assert!(!pawn::fullbody(&s));
}

#[test]
fn body_is_held_every_frame() {
    let mut m = Memory::new();
    let pawn = 0x1000;
    let rep = 0x9000;
    for i in 0..0x500 {
        m.load(pawn + i, 0);
        m.load(rep + i, 0);
    }
    put(&mut m, pawn + 0x428, rep, 8);
    assert_eq!(body::show_full_body(&mut m, pawn, true), Some(1));
    assert_eq!(m.read_u8(pawn + 0x3c1), Some(2));
    assert_eq!(m.read_i32(pawn + 0x3f8), Some(1));
    assert_eq!(m.read_i32(rep + 0x188), Some(1));
    assert_eq!(m.read_u8(rep + 0x13c), Some(1));
    assert_eq!(body::show_full_body(&mut m, pawn, false), Some(0));
    assert_eq!(m.read_u8(pawn + 0x3c1), Some(1));
    assert_eq!(m.read_i32(rep + 0x188), Some(-1));
    assert_eq!(body::show_full_body(&mut m, 0, true), None);
    assert_eq!(body::show_full_body(&mut m, 0x7000_0000, true), None);
    let mut s = PawnState::new();
    assert!(body::hold_pawn_state(&mut m, &s, pawn).is_none());
    s.fullbody = true;
    s.scale = 2.0f64.to_bits();
    let h = body::hold_pawn_state(&mut m, &s, pawn).unwrap();
    assert!(h.update && h.scale == Some(2.0f64.to_bits()));
    assert_eq!(m.read_u8(pawn + 0x3c1), Some(2));
    s.fullbody = false;
    let h = body::hold_pawn_state(&mut m, &s, pawn).unwrap();
    assert!(!h.update);
    assert_eq!(body::scale_block(2.0f64.to_bits())[16..24], 2.0f64.to_le_bytes());
}

#[test]
fn meshes_of_the_pawn_are_switched() {
    let mut w = World::new();
    let mesh = w.class("SkeletalMeshComponent", 0);
    let pawn = w.object("Pawn_1", 0);
    let actor = w.object("Actor_1", 0);
    let full = w.object("Body", mesh);
    let arms = w.object("FPArms", mesh);
    let shadow = w.object("ShadowBody", mesh);
    let gun = w.object("Gun", mesh);
    put(&mut w.m, full + 0x20, pawn, 8);
    put(&mut w.m, arms + 0x20, full, 8);
    put(&mut w.m, shadow + 0x20, actor, 8);
    let (on, whole) = body::try_third_person(&mut w.m, BASE, pawn, actor, true);
    assert!(whole);
    let names: Vec<&str> = on.iter().map(|x| x.name.as_str()).collect();
    assert_eq!(names, vec!["Body", "FPArms", "ShadowBody"]);
    assert!(!on[0].proxy && on[1].proxy && on[2].proxy && on[0].obj == full && gun != 0);
    let calls = |i: usize, v: &Vec<body::Mesh>| {
        v[i].steps.iter().map(|s| (s.name, s.parms.clone())).collect::<Vec<_>>()
    };
    assert_eq!(calls(0, &on), vec![("SetOwnerNoSee", vec![0])]);
    assert_eq!(calls(1, &on), vec![("SetOwnerNoSee", vec![1])]);
    assert_eq!(calls(2, &on), vec![("SetOwnerNoSee", vec![0])]);
    let (off, _) = body::try_third_person(&mut w.m, BASE, pawn, actor, false);
    assert_eq!(calls(0, &off), vec![("SetOwnerNoSee", vec![1])]);
    assert_eq!(calls(1, &off).len(), 3);
    assert!(calls(2, &off).is_empty());
}

#[test]
fn engine_calls_are_prepared() {
    let mut w = World::new();
    let cls = w.class("PlayerController", 0);
    let getter = w.function("K2_GetPawn", cls);
    let pc = w.object("PC_0", cls);
    let ready = |f: u64| Call::Ready { func: f, entry: Some(0x7777) };
    assert!(calls::get_pawn(&mut w.m, BASE, pc) == ready(getter));
    assert!(calls::get_component(&mut w.m, BASE, pc, 0) == Call::NoObject);
    assert!(calls::get_component(&mut w.m, BASE, pc, 9) == Call::NotFound);
    assert!(calls::apply_time(&mut w.m, BASE, pc, 1).0 == Call::NotFound);
    let gs = w.class("GameplayStatics", 0);
    let dilate = w.function("SetGlobalTimeDilation", gs);
    let (call, block) = calls::apply_time(&mut w.m, BASE, pc, 0x3f00_0000);
    assert!(call == ready(dilate));
    assert_eq!(block[0..8], pc.to_le_bytes());
    assert_eq!(block[8..12], [0, 0, 0, 0x3f]);
    let ks = w.class("KismetSystemLibrary", 0);
    let run = w.function("ExecuteConsoleCommand", ks);
    let (call, block) = calls::console_command(&mut w.m, BASE, pc, 0x1234, 18);
    assert!(call == ready(run));
    assert_eq!(block[8..16], 0x1234u64.to_le_bytes());
    assert_eq!((block[0x10], block[0x14]), (18, 18));
    assert_eq!(block[0x18..0x20], pc.to_le_bytes());
    assert_eq!(calls::TOGGLE_INPUT, "ImGui.ToggleInput");
    let cams = w.class("PlayerCameraManager", 0);
    let fade = w.function("StartCameraFade", cams);
    let cam = w.object("Cam_1", cams);
    let (on, call, block) = calls::camera_fade(&mut w.m, BASE, true);
    assert!(on == cam && call == ready(fade));
    assert_eq!(block, calls::fade_block(true));
    assert_eq!(block[4..8], 1.0f32.to_le_bytes());
    assert_eq!(block[0x1d], 1);
    assert_eq!(calls::fade_block(false)[0..4], 1.0f32.to_le_bytes());
    assert_eq!(calls::fade_block(false)[0x1d], 0);
}

#[test]
fn replies_are_decoded() {
    let mut b: Vec<u8> = vec![0; 16];
    b[0] = 5;
    b[8] = 7;
    let some = Some(b);
    assert_eq!(calls::call_ret_ptr(&some), 5);
    assert_eq!(calls::call_ret_f32(&some), 5);
    assert!(calls::call_ret_bool(&some));
    assert!(calls::call_actor_ret_bool(&some));
    assert_eq!(calls::component_of(&some), 7);
    assert_eq!(calls::call_ret_ptr(&None), 0);
    assert!(f32::from_bits(calls::call_ret_f32(&None)).is_nan());
    assert!(!calls::call_ret_bool(&None));
    assert!(!calls::call_actor_ret_bool(&None));
    assert_eq!(calls::component_of(&None), 0);
    assert_eq!(calls::object_block(0x0102)[0..3], [2, 1, 0]);
    assert_eq!(calls::object_block(1).len(), 32);
}

#[test]
fn clock_report() {
    let mut m = Memory::new();
    assert!(body::diag_time(&mut m, 0).is_none());
    let r = body::diag_time(&mut m, 0x100).unwrap();
    assert!(r.rate.is_none() && r.words.is_empty());
    put(&mut m, 0x100, 0, 16);
    put(&mut m, 0x106, 60, 2);
    put(&mut m, 0x108, 9, 4);
    let r = body::diag_time(&mut m, 0x100).unwrap();
    assert_eq!(r.rate, Some((60, 9)));
    assert_eq!(r.words, vec![(0, 0), (4, 60 << 16), (8, 9), (12, 0)]);
}

fn seen(obj: u64, score: f64) -> Sighting {
    Sighting {
        index: obj as i32,
        obj,
        dead: false,
        located: true,
        dist: 10.0f64.to_bits(),
        along: 1.0f64.to_bits(),
        score: score.to_bits(),
    }
}

#[test]
fn best_biped_is_picked() {
    let mut s = Possess::new();
    let mut dead = seen(1, 0.5);
    dead.dead = true;
    let mut here = seen(2, 0.5);
    here.dist = 0.5f64.to_bits();
    let mut behind = seen(3, 0.5);
    behind.along = 0.1f64.to_bits();
    let all = vec![dead, here, behind, seen(4, 9.0), seen(5, 2.0), seen(6, 2.0)];
    assert_eq!(target::pick_target(&mut s, &all, true), 5);
    assert_eq!((s.target, s.target_idx), (5, 5));
    assert_eq!(target::pick_target(&mut s, &all, false), 3);
    assert_eq!(target::pick_target(&mut s, &vec![dead], false), 0);
    assert_eq!(s.target, 3);
}

#[test]
fn bipeds_are_listed() {
    let mut w = World::new();
    let boa = w.class("BlamObjectActor", 0);
    let comp = w.class("BlamObjectComponent", 0);
    let elite = w.class("BP_Elite_BipedActor_C", boa);
    let crate_class = w.class("BP_Crate_C", boa);
    let loc = w.function("K2_GetActorLocation", boa);
    let rot = w.function("K2_GetActorRotation", boa);
    let e1 = w.object("Elite_1", elite);
    w.object("Crate_1", crate_class);
    let template = w.object("Elite_T", elite);
    put(&mut w.m, template + 8, 0x20, 4);
    let e2 = w.object("Elite_2", elite);
    let mut f = Found::new();
    assert_eq!(target::boa_class(&mut f, &mut w.m, BASE), Some(boa));
    assert_eq!(target::objc_class(&mut f, &mut w.m, BASE), Some(comp));
    assert_eq!(target::loc_fn(&mut f, &mut w.m, BASE, e1), Some(loc));
    assert_eq!(target::rot_fn(&mut f, &mut w.m, BASE, e1), Some(rot));
    assert_eq!(f.get_location, loc);
    let list = target::list_bipeds(&mut w.m, BASE, boa);
    assert_eq!(list.iter().map(|x| x.1).collect::<Vec<_>>(), vec![e1, e2]);
    // the followed target must stay in its slot
    let mut s = Possess::new();
    let mut look = Look::new();
    look.yaw = 3;
    assert!(target::target_pov(&s, &mut w.m, BASE, 0, &look).is_none());
    s.follow = true;
    s.target = e2;
    s.target_idx = list[1].0;
    assert!(
        target::target_pov(&s, &mut w.m, BASE, 0, &look)
            == Some((e2, Facing::Look { yaw: 3, pitch: look.pitch }))
    );
    s.target_idx = list[0].0;
    assert!(target::target_pov(&s, &mut w.m, BASE, 0, &look).is_none());
    // stats and the roster see the same world
    match stats::count_enemies(&mut w.m, BASE, boa) {
        Swept::Done(x) => {
            assert_eq!(x.enemies, vec![e1, e2]);
            assert_eq!(x.sample, "BP_Elite_BipedActor_C BP_Elite_BipedActor_C ");
        }
        _ => panic!("the sweep gets through"),
    }
    assert!(matches!(stats::count_enemies(&mut w.m, BASE, 0), Swept::NoClass));
    let mut nothing = Memory::new();
    assert!(matches!(stats::count_enemies(&mut nothing, BASE, boa), Swept::Faulted));
    let r = dump::run(&mut w.m, BASE, boa).unwrap();
    assert_eq!(r.scanned, 3);
    assert_eq!(r.rows.len(), 2);
    assert_eq!((r.rows[0].name.as_str(), r.rows[0].count), ("BP_Elite_BipedActor_C", 2));
    assert!(dump::run(&mut w.m, BASE, 0).is_none());
}

const TLS: u64 = 0x10_0000;

/// One unit, in record 2 of the object table.
fn one_unit() -> Memory {
    let mut m = Memory::new();
    put(&mut m, TLS + 0x20, 0x20_0000, 8);
    put(&mut m, 0x20_0050, 0x30_0000, 8);
    put(&mut m, 0x30_0030, 0xe005, 2);
    put(&mut m, 0x30_0040, 0x40_0000, 8);
    put(&mut m, 0x40_0174, 0x30, 2);
    put(&mut m, 0x40_0176, 0x600, 2);
    put(&mut m, 0x40_0610, 0.5f32.to_bits() as u64, 4);
    put(&mut m, 0x40_0628, 0.25f32.to_bits() as u64, 4);
    m
}

#[test]
fn unit_of_a_target_is_found() {
    let mut m = one_unit();
    let actor = 0x50_0000;
    let comp = 0x51_0000;
    put(&mut m, actor + 0x10, 0xffff_ffff, 4);
    put(&mut m, comp + 0x20, 2, 4);
    assert_eq!(target::index_properties()[1], "BlamObjectIndex");
    let go = |m: &mut Memory, a: Vec<Option<i32>>, c: Vec<Option<i32>>| {
        target::handle_via_reflection(m, TLS, actor, &a, comp, &c)
    };
    assert_eq!(go(&mut m, vec![None, Some(0x10)], vec![Some(-4), Some(0x20)]), Some(0xe005_0002));
    assert_eq!(go(&mut m, vec![Some(0x2000)], vec![]), None);
    put(&mut m, comp + 0x218, 0.5f32.to_bits() as u64, 4);
    put(&mut m, comp + 0x228, f32::NAN.to_bits() as u64, 4);
    let v = target::read_vitals(&mut m, TLS, 0xe005_0002, comp);
    assert_eq!((f32::from_bits(v.body), f32::from_bits(v.shield)), (0.5, 0.25));
    assert_eq!(f32::from_bits(v.comp_body), 0.5);
    let h = 0xe005_0002;
    assert!(target::fingerprint_agrees(&mut m, TLS, h, comp, true, false));
    assert!(!target::fingerprint_agrees(&mut m, TLS, h, comp, false, true));
    put(&mut m, comp + 0x228, 0.25f32.to_bits() as u64, 4);
    assert!(!target::fingerprint_agrees(&mut m, TLS, h, comp, true, false));
    assert!(target::fingerprint_agrees(&mut m, TLS, h, comp, true, true));
    assert!(target::fingerprint_agrees(&mut m, TLS, h, 0, false, false));
    assert!(!target::fingerprint_agrees(&mut m, TLS, 7, 0, true, true));
    let f = |d: f32| d.to_bits();
    let found = vec![None, Some((1, f(3.0), 9)), Some((2, f(2.0), 9)), Some((3, f(2.0), 9))];
    let near = |agrees: Vec<bool>| target::handle_via_position(&found, &agrees);
    assert_eq!(near(vec![true; 4]), Some((2, f(2.0), 2)));
    // the fingerprint tells which way the axes are turned
    assert_eq!(near(vec![true, true, false, false]), Some((1, f(3.0), 1)));
    assert_eq!(near(vec![false, true, false, true]), Some((3, f(2.0), 3)));
    assert_eq!(near(vec![false; 4]), None);
    assert_eq!(target::handle_via_position(&vec![None], &vec![true]), None);
    assert!(!target::accept_match(f(0.5), false));
    assert!(target::accept_match(f(0.5), true));
    assert!(target::accept_match(f(5.5), true));
    assert!(!target::accept_match(f(6.0), true));
    assert_eq!(target::target_unit_handle(Some(1), true, Some((2, f(0.1))), true), Some(1));
    assert_eq!(target::target_unit_handle(Some(1), false, Some((2, f(0.1))), true), Some(2));
    assert_eq!(target::target_unit_handle(Some(1), false, Some((2, f(0.1))), false), None);
    assert_eq!(target::target_unit_handle(None, true, Some((2, f(9.0))), true), None);
    assert!(target::diagunit("BlamObjectIndex", 0x40));
    assert!(!target::diagunit("BlamObjectIndex", 0x2000));
    assert!(!target::diagunit("Velocity", 0x40));
}

#[test]
fn statistics() {
    let mut b = Board::new();
    assert!(!stats::snapshot(&b).valid);
    let due: Vec<bool> = (0..33).map(|_| stats::refresh(&mut b, None)).collect();
    assert_eq!(due.iter().filter(|x| **x).count(), 3);
    stats::refresh(&mut b, Some((1, 2)));
    let s = stats::snapshot(&b);
    assert!(s.valid && s.health == 1 && s.shield == 2 && s.enemies_total == -1);
    assert!(!stats::note_count(&mut b, None));
    assert_eq!(stats::snapshot(&b).enemies_alive, -1);
    assert!(stats::note_count(&mut b, Some((1, 2))));
    assert!(!stats::note_count(&mut b, Some((0, 2))));
    assert_eq!(stats::snapshot(&b).enemies_alive, 0);
    assert!(stats::is_enemy("BP_Kig-Yar_C") && stats::is_enemy("FloodInfection"));
    assert!(!stats::is_enemy("BP_Marine_C"));
    assert_eq!(
        stats::count_alive(&vec![(true, false), (true, true), (false, false), (true, false)]),
        2
    );
}

fn row(name: &str, count: u32) -> Row {
    Row { name: name.to_string(), count }
}

#[test]
fn roster_is_ordered_and_written() {
    let rows = vec![
        row("B_Biped", 2),
        row("A_Vehicle", 1),
        row("C_Biped", 5),
        row("A_Biped", 2),
        row("X_Grenade", 3),
        row("Y", 1),
        row("W_Weapon", 4),
    ];
    assert!(dump::category("BipedWeapon") == Category::Bipeds);
    assert!(dump::category("VehicleWeapon") == Category::Vehicles);
    assert!(dump::category("Thing") == Category::Other);
    let bipeds = dump::sort_category(&rows, Category::Bipeds);
    let order: Vec<(&str, u32)> = bipeds.iter().map(|r| (r.name.as_str(), r.count)).collect();
    assert_eq!(order, vec![("C_Biped", 5), ("A_Biped", 2), ("B_Biped", 2)]);
    let text = dump::report(&Roster { rows, scanned: 18 });
    assert!(text.starts_with("# Huragok live actor roster"));
    assert!(text.contains("total live actors: 18, distinct classes: 7\n\n"));
    assert!(text.contains("== bipeds (3) ==\n     5  C_Biped\n     2  A_Biped\n     2  B_Biped\n"));
    assert!(text.contains("== equipment (1) ==\n     3  X_Grenade\n"));
}

#[test]
fn mission_titles() {
    assert_eq!(campaign::mission_title(" A30_Mission "), "Halo (A30_Mission)");
    assert_eq!(campaign::mission_title("c10"), "343 Guilty Spark (c10)");
    assert_eq!(campaign::mission_title("menu"), "menu");
    assert_eq!(campaign::difficulty_name(4), "Legendary");
    assert_eq!(campaign::difficulty_name(0), "");
    let i = Info::new();
    assert_eq!(campaign::snapshot(&i), (String::new(), String::new(), -1, -1));
}

/// A parameter block with an engine string at 0x10.
fn answer(m: &mut Memory, s: &str) -> Vec<u8> {
    let data = 0x60_0000;
    let mut n = 0;
    for u in s.encode_utf16() {
        put(m, data + 2 * n, u as u64, 2);
        n += 1;
    }
    put(m, data + 2 * n, 0, 2);
    let mut b = vec![0; 64];
    b[0x10..0x18].copy_from_slice(&(data).to_le_bytes());
    b[0x18..0x1c].copy_from_slice(&((n + 1) as u32).to_le_bytes());
    b
}

#[test]
fn mission_readout() {
    let mut m = Memory::new();
    let sim = 0x7000_0000;
    let gg = 0x80_0000;
    let comp = 0x90_0000;
    let b = answer(&mut m, "D40 \u{20ac}");
    assert_eq!(campaign::read_fstring(&mut m, &b, 0x10), Some("D40 \u{20ac}".to_string()));
    assert_eq!(campaign::read_fstring(&mut m, &b, 60), Some(String::new()));
    put(&mut m, sim + campaign::SEGMENT_RVA, 3, 4);
    put(&mut m, gg + campaign::GG_CHECKPOINT, 12, 2);
    put(&mut m, comp + 0x44, 3, 1);
    let mut i = Info::new();
    campaign::refresh(&mut i, &mut m, sim, gg, &Answer::Given(b), comp, Some(0x44));
    assert_eq!(
        campaign::snapshot(&i),
        ("The Maw (D40 \u{20ac})".to_string(), "Heroic".to_string(), 12, 3)
    );
    campaign::refresh(&mut i, &mut m, 0, 0, &Answer::NotAsked, comp, None);
    assert_eq!(i.level, "The Maw (D40 \u{20ac})");
    assert_eq!((i.difficulty.as_str(), i.checkpoint, i.segment), ("", -1, -1));
    campaign::refresh(&mut i, &mut m, 0x1234, gg, &Answer::Faulted, comp, Some(0x44));
    assert_eq!((i.difficulty.as_str(), i.checkpoint, i.segment), ("", -1, -1));
    put(&mut m, 0xa0_0010, 0x77, 8);
    put(&mut m, 0xa0_0018, 9, 4);
    assert_eq!(campaign::diag_mission(&mut m, 0xa0_0000, 0x10), Some((0x77, 9)));
    assert_eq!(campaign::diag_mission(&mut m, 0, 0x10), None);
    assert_eq!(campaign::diag_mission(&mut m, 0xa0_0000, -1), None);
}

#[test]
fn level_is_asked_of_the_default_object() {
    let mut w = World::new();
    assert!(campaign::ask_level(&mut w.m, BASE, 5).1 == Call::NotFound);
    let gs = w.class("GameplayStatics", 0);
    let cdo = w.object("Default__GameplayStatics", gs);
    let f = w.function("GetCurrentLevelName", gs);
    let (on, call, block) = campaign::ask_level(&mut w.m, BASE, 0x0102);
    assert!(on == cdo && call == (Call::Ready { func: f, entry: Some(0x7777) }));
    assert_eq!(block[0..2], [2, 1]);
    assert_eq!(block[8], 1);
    assert_eq!(block.len(), 64);
}
