//! What a command does to the player controller and its pawn.
//!
//! A command comes down to work for the host: calls of engine functions by name, each with the
//! bytes of its parameter block and the size that block must have, or one of a few other
//! operations. [`pe_call`](crate::ue::process_event::pe_call) resolves a call.

use vstd::prelude::*;

pub mod body;
pub mod calls;

use crate::bytes::{le32, le64, overlaid, push_u32, push_u64, set_u64, set_u8, zeroed, zeros};
use crate::cmd::Cmd;
use crate::ieee::ONE;
use crate::state::CamData;

verus! {

/// Bit pattern of the double `3.0`.
pub const SCALE_GIANT: u64 = 0x4008_0000_0000_0000;

/// Bit pattern of the double `0.3`.
pub const SCALE_TINY: u64 = 0x3fd3_3333_3333_3333;

/// Bit pattern of the double `1.0`.
pub const SCALE_NORMAL: u64 = 0x3ff0_0000_0000_0000;

/// One call of an engine function.
pub struct Step {
    pub name: &'static str,
    pub parms: Vec<u8>,
    /// The size that the function's parameter block must have.
    pub size: i32,
}

/// The contents of a [`Step`].
pub struct StepView {
    pub name: Seq<char>,
    pub parms: Seq<u8>,
    pub size: i32,
}

impl View for Step {
    type V = StepView;

    open spec fn view(&self) -> StepView {
        StepView { name: self.name@, parms: self.parms@, size: self.size }
    }
}

/// The contents of a list of steps.
pub open spec fn step_views(v: Seq<Step>) -> Seq<StepView> {
    v.map_values(|s: Step| s@)
}

/// A step.
pub open spec fn step(name: Seq<char>, parms: Seq<u8>, size: i32) -> StepView {
    StepView { name, parms, size }
}

/// What calls are made on.
#[derive(Clone, Copy, PartialEq, Eq, Structural)]
pub enum Callee {
    Controller,
    Pawn,
}

/// The work that a command comes down to.
pub enum Work {
    /// Nothing is left to do.
    Done,
    /// Make the calls in order. Without a pawn to call on, make none. Where `guarded`, the first
    /// fault ends the row.
    Calls { on: Callee, guarded: bool, steps: Vec<Step> },
    /// Show or hide the third-person body.
    ThirdPerson(bool),
    /// Toggle the input of the overlay.
    ToggleInput,
    /// Apply a time scale to the simulation's clock, and report how it went the first time.
    TimeScale { scale: u32, report: bool },
    /// Fade the camera out or in.
    Fade(bool),
    /// Switch night vision.
    NightVision(bool),
    /// Report on the clock.
    DiagTime,
    /// Report on the mission.
    DiagMission,
}

/// The contents of a [`Work`].
pub enum WorkView {
    Done,
    Calls { on: Callee, guarded: bool, steps: Seq<StepView> },
    ThirdPerson(bool),
    ToggleInput,
    TimeScale { scale: u32, report: bool },
    Fade(bool),
    NightVision(bool),
    DiagTime,
    DiagMission,
}

impl View for Work {
    type V = WorkView;

    open spec fn view(&self) -> WorkView {
        match self {
            Work::Done => WorkView::Done,
            Work::Calls { on, guarded, steps } => WorkView::Calls {
                on: *on,
                guarded: *guarded,
                steps: step_views(steps@),
            },
            Work::ThirdPerson(on) => WorkView::ThirdPerson(*on),
            Work::ToggleInput => WorkView::ToggleInput,
            Work::TimeScale { scale, report } => WorkView::TimeScale {
                scale: *scale,
                report: *report,
            },
            Work::Fade(out) => WorkView::Fade(*out),
            Work::NightVision(on) => WorkView::NightVision(*on),
            Work::DiagTime => WorkView::DiagTime,
            Work::DiagMission => WorkView::DiagMission,
        }
    }
}

/// The player controller, and what is held on the pawn from frame to frame.
#[derive(Clone, Copy)]
pub struct PawnState {
    pub pc: u64,
    /// Time scale, as a single-precision bit pattern.
    pub time_dilation: u32,
    /// Whether the third-person body is held.
    pub fullbody: bool,
    /// Forced scale, as a double-precision bit pattern. Zero forces none.
    pub scale: u64,
    /// Whether a time scale was ever asked for.
    pub time_applied: bool,
}

impl PawnState {
    /// No controller, normal time, nothing held.
    pub fn new() -> (r: PawnState)
        ensures
            r == (PawnState {
                pc: 0,
                time_dilation: ONE,
                fullbody: false,
                scale: 0,
                time_applied: false,
            }),
    {
        PawnState { pc: 0, time_dilation: ONE, fullbody: false, scale: 0, time_applied: false }
    }
}

/// Keep the player controller.
pub fn set_pc(s: &mut PawnState, p: u64)
    ensures
        *final(s) == (PawnState { pc: p, ..*old(s) }),
{
    s.pc = p;
}

/// The player controller.
pub fn pc(s: &PawnState) -> (r: u64)
    ensures
        r == s.pc,
{
    s.pc
}

/// The time scale.
pub fn time_dilation(s: &PawnState) -> (r: u32)
    ensures
        r == s.time_dilation,
{
    s.time_dilation
}

/// The forced scale.
pub fn scale(s: &PawnState) -> (r: u64)
    ensures
        r == s.scale,
{
    s.scale
}

/// Whether the third-person body is held.
pub fn fullbody(s: &PawnState) -> (r: bool)
    ensures
        r == s.fullbody,
{
    s.fullbody
}

/// The time scale to apply again on this frame: none until one was asked for.
pub fn hold_time(s: &PawnState) -> (r: Option<u32>)
    ensures
        r == if s.time_applied {
            Some(s.time_dilation)
        } else {
            None
        },
{
    if !s.time_applied {
        return None;
    }
    Some(s.time_dilation)
}

/// A truth value as a byte.
pub open spec fn flag(b: bool) -> u8 {
    if b {
        1
    } else {
        0
    }
}

pub(crate) fn flag_byte(b: bool) -> (r: u8)
    ensures
        r == flag(b),
{
    if b {
        1
    } else {
        0
    }
}

/// The parameter block of the simulation's pause: a null name, then the flag.
pub open spec fn pause_parms(on: bool) -> Seq<u8> {
    overlaid(zeros(16), 8, seq![flag(on)])
}

/// The calls that a command makes on the player controller.
pub open spec fn controller_steps(c: Cmd, pc: u64) -> Seq<StepView> {
    match c {
        Cmd::CineOn => seq![step("SetCinematicMode"@, seq![1u8, 1, 1, 1, 1], 5)],
        Cmd::CineOff => seq![step("SetCinematicMode"@, seq![0u8, 1, 1, 1, 1], 5)],
        Cmd::Pause => seq![step("Pause"@, Seq::empty(), 0)],
        Cmd::Freeze => seq![
            step("DisableInput"@, le64(pc), 8),
            step("SetIgnoreMoveInput"@, seq![1u8], 1),
            step("SetIgnoreLookInput"@, seq![1u8], 1),
        ],
        Cmd::Unfreeze => seq![
            step("EnableInput"@, le64(pc), 8),
            step("ResetIgnoreInputFlags"@, Seq::empty(), 0),
        ],
        Cmd::Fov(v) => seq![step("FOV"@, le32(v), 4)],
        Cmd::SimFreeze => seq![step("SetGameAndBlamPaused"@, pause_parms(true), 9)],
        Cmd::SimUnfreeze => seq![step("SetGameAndBlamPaused"@, pause_parms(false), 9)],
        _ => Seq::empty(),
    }
}

/// The calls that a cheat or a visibility command makes on the pawn.
pub open spec fn pawn_steps(c: Cmd) -> Seq<StepView> {
    match c {
        Cmd::GhostMode => seq![step("ClientCheatGhost"@, Seq::empty(), 0)],
        Cmd::Fly => seq![step("ClientCheatFly"@, Seq::empty(), 0)],
        Cmd::Walk => seq![step("ClientCheatWalk"@, Seq::empty(), 0)],
        Cmd::God => seq![step("SetCanBeDamaged"@, seq![0u8], 1)],
        Cmd::Ungod => seq![step("SetCanBeDamaged"@, seq![1u8], 1)],
        Cmd::PawnHide => seq![step("SetActorHiddenInGame"@, seq![1u8], 1)],
        Cmd::PawnShow => seq![step("SetActorHiddenInGame"@, seq![0u8], 1)],
        Cmd::PawnNoCol => seq![step("SetActorEnableCollision"@, seq![0u8], 1)],
        Cmd::PawnCol => seq![step("SetActorEnableCollision"@, seq![1u8], 1)],
        _ => Seq::empty(),
    }
}

/// The parameter block of a teleport: the camera's position, then a rotation with the camera's
/// yaw alone.
pub open spec fn teleport_parms(cam: CamData) -> Seq<u8> {
    overlaid(
        overlaid(
            overlaid(overlaid(zeros(64), 0, le64(cam.x)), 8, le64(cam.y)),
            16,
            le64(cam.z),
        ),
        0x20,
        le64(cam.yaw),
    )
}

/// The calls that an effect command makes on the pawn.
pub open spec fn effect_steps(c: Cmd, cam: CamData) -> Seq<StepView> {
    match c {
        Cmd::CamoOn => seq![
            step("Camo_RecacheMeshes"@, Seq::empty(), 0),
            step("Camo_UpdateIndex"@, le32(3), 4),
            step("ActorApplyMaskedMaterials"@, Seq::empty(), 0),
        ],
        Cmd::CamoOff => seq![step("ActorApplyOpaqueMaterials"@, Seq::empty(), 0)],
        Cmd::CamoToggle => seq![step("Camo_Toggle"@, zeros(64), 8)],
        Cmd::OvershieldOn => seq![
            step("Overshield_Toggle"@, overlaid(zeros(64), 0, seq![1u8]), 1),
        ],
        Cmd::OvershieldOff => seq![
            step("Overshield_Toggle"@, overlaid(zeros(64), 0, seq![0u8]), 1),
        ],
        Cmd::FreezePawn => seq![
            step("SetActorTickEnabled"@, overlaid(zeros(64), 0, seq![0u8]), 1),
        ],
        Cmd::UnfreezePawn => seq![
            step("SetActorTickEnabled"@, overlaid(zeros(64), 0, seq![1u8]), 1),
        ],
        Cmd::ShieldBreak => seq![step("ShieldBreakPP"@, Seq::empty(), 0)],
        Cmd::NightVis => seq![step("NightVisionReloadCheck"@, Seq::empty(), 0)],
        Cmd::RechargePP => seq![step("PlayRechargeScreenPP"@, Seq::empty(), 0)],
        Cmd::BloodHuman => seq![step("ScreenBloodHuman"@, zeros(64), 16)],
        Cmd::BloodCov => seq![step("ScreenBloodCov"@, zeros(64), 16)],
        Cmd::BloodGrunt => seq![step("ScreenBloodGrunt"@, zeros(64), 16)],
        Cmd::BloodBrute => seq![step("ScreenBloodBrute"@, zeros(64), 16)],
        Cmd::Teleport => seq![step("K2_TeleportTo"@, teleport_parms(cam), 49)],
        Cmd::RadialBlur => seq![step("VehicleRadialBlurPPEffect"@, zeros(64), 8)],
        Cmd::Breath => seq![step("Biped_BreathEffectToggle"@, zeros(64), 24)],
        _ => Seq::empty(),
    }
}

/// The work that a command comes down to.
pub open spec fn work_of(s: PawnState, pc: u64, c: Cmd, cam: CamData) -> WorkView {
    match c {
        Cmd::CineOn | Cmd::CineOff | Cmd::Pause | Cmd::Freeze | Cmd::Unfreeze | Cmd::Fov(
            _,
        ) => WorkView::Calls {
            on: Callee::Controller,
            guarded: false,
            steps: controller_steps(c, pc),
        },
        Cmd::SimFreeze | Cmd::SimUnfreeze => WorkView::Calls {
            on: Callee::Controller,
            guarded: true,
            steps: controller_steps(c, pc),
        },
        Cmd::GhostMode | Cmd::Fly | Cmd::Walk | Cmd::God | Cmd::Ungod | Cmd::PawnHide | Cmd::PawnShow
        | Cmd::PawnNoCol | Cmd::PawnCol => WorkView::Calls {
            on: Callee::Pawn,
            guarded: false,
            steps: pawn_steps(c),
        },
        Cmd::ScaleGiant | Cmd::ScaleTiny | Cmd::ScaleNormal => WorkView::Done,
        Cmd::FullbodyOn => WorkView::ThirdPerson(true),
        Cmd::FullbodyOff => WorkView::ThirdPerson(false),
        Cmd::ImguiInput => WorkView::ToggleInput,
        Cmd::Slomo(v) => WorkView::TimeScale { scale: v, report: !s.time_applied },
        Cmd::DiagTime => WorkView::DiagTime,
        Cmd::DiagMission => WorkView::DiagMission,
        Cmd::NightVision(on) => WorkView::NightVision(on),
        Cmd::FadeOut => WorkView::Fade(true),
        Cmd::FadeIn => WorkView::Fade(false),
        _ => WorkView::Calls { on: Callee::Pawn, guarded: true, steps: effect_steps(c, cam) },
    }
}

/// What is held after a command.
pub open spec fn after(s: PawnState, c: Cmd) -> PawnState {
    match c {
        Cmd::ScaleGiant => PawnState { scale: SCALE_GIANT, ..s },
        Cmd::ScaleTiny => PawnState { scale: SCALE_TINY, ..s },
        Cmd::ScaleNormal => PawnState { scale: SCALE_NORMAL, ..s },
        Cmd::Slomo(v) => PawnState { time_dilation: v, time_applied: true, ..s },
        _ => s,
    }
}

fn no_parms() -> (r: Vec<u8>)
    ensures
        r@ == Seq::<u8>::empty(),
{
    Vec::new()
}

fn byte_parm(v: u8) -> (r: Vec<u8>)
    ensures
        r@ == seq![v],
{
    let mut p: Vec<u8> = Vec::new();
    p.push(v);
    assert(p@ =~= seq![v]);
    p
}

fn word_parm(v: u32) -> (r: Vec<u8>)
    ensures
        r@ == le32(v),
{
    let mut p: Vec<u8> = Vec::new();
    push_u32(&mut p, v);
    assert(p@ =~= le32(v));
    p
}

fn pointer_parm(v: u64) -> (r: Vec<u8>)
    ensures
        r@ == le64(v),
{
    let mut p: Vec<u8> = Vec::new();
    push_u64(&mut p, v);
    assert(p@ =~= le64(v));
    p
}

fn block_with(v: u8) -> (r: Vec<u8>)
    ensures
        r@ == overlaid(zeros(64), 0, seq![v]),
{
    let mut p = zeroed(64);
    set_u8(&mut p, 0, v);
    p
}

pub(crate) fn one(name: &'static str, parms: Vec<u8>, size: i32) -> (r: Vec<Step>)
    ensures
        step_views(r@) == seq![step(name@, parms@, size)],
{
    let mut v: Vec<Step> = Vec::new();
    let ghost p = parms@;
    v.push(Step { name, parms, size });
    assert(step_views(v@) =~= seq![step(name@, p, size)]);
    v
}

pub(crate) fn and(steps: Vec<Step>, name: &'static str, parms: Vec<u8>, size: i32) -> (r: Vec<Step>)
    ensures
        step_views(r@) == step_views(steps@).push(step(name@, parms@, size)),
{
    let ghost before = steps@;
    let ghost p = parms@;
    let mut v = steps;
    v.push(Step { name, parms, size });
    assert(step_views(v@) =~= step_views(before).push(step(name@, p, size)));
    v
}

fn cinematic(on: u8) -> (r: Vec<Step>)
    ensures
        step_views(r@) == seq![step("SetCinematicMode"@, seq![on, 1u8, 1, 1, 1], 5)],
{
    let mut p: Vec<u8> = Vec::new();
    p.push(on);
    p.push(1);
    p.push(1);
    p.push(1);
    p.push(1);
    assert(p@ =~= seq![on, 1u8, 1, 1, 1]);
    one("SetCinematicMode", p, 5)
}

/// The call that freezes or resumes the simulation itself. It reaches the simulation's own pause
/// state, which the engine's pause does not.
pub fn blam_pause(on: bool) -> (r: Vec<Step>)
    ensures
        step_views(r@) == seq![step("SetGameAndBlamPaused"@, pause_parms(on), 9)],
{
    let mut p = zeroed(16);
    set_u8(&mut p, 8, flag_byte(on));
    one("SetGameAndBlamPaused", p, 9)
}

fn on_controller(c: Cmd, pc: u64) -> (r: Vec<Step>)
    ensures
        step_views(r@) == controller_steps(c, pc),
{
    match c {
        Cmd::CineOn => cinematic(1),
        Cmd::CineOff => cinematic(0),
        Cmd::Pause => one("Pause", no_parms(), 0),
        Cmd::Freeze => {
            let v = one("DisableInput", pointer_parm(pc), 8);
            let v = and(v, "SetIgnoreMoveInput", byte_parm(1), 1);
            let v = and(v, "SetIgnoreLookInput", byte_parm(1), 1);
            assert(step_views(v@) =~= controller_steps(c, pc));
            v
        },
        Cmd::Unfreeze => {
            let v = one("EnableInput", pointer_parm(pc), 8);
            let v = and(v, "ResetIgnoreInputFlags", no_parms(), 0);
            assert(step_views(v@) =~= controller_steps(c, pc));
            v
        },
        Cmd::Fov(v) => one("FOV", word_parm(v), 4),
        Cmd::SimFreeze => blam_pause(true),
        Cmd::SimUnfreeze => blam_pause(false),
        _ => {
            let v: Vec<Step> = Vec::new();
            assert(step_views(v@) =~= Seq::empty());
            v
        },
    }
}

fn on_pawn(c: Cmd) -> (r: Vec<Step>)
    ensures
        step_views(r@) == pawn_steps(c),
{
    match c {
        Cmd::GhostMode => one("ClientCheatGhost", no_parms(), 0),
        Cmd::Fly => one("ClientCheatFly", no_parms(), 0),
        Cmd::Walk => one("ClientCheatWalk", no_parms(), 0),
        Cmd::God => one("SetCanBeDamaged", byte_parm(0), 1),
        Cmd::Ungod => one("SetCanBeDamaged", byte_parm(1), 1),
        Cmd::PawnHide => one("SetActorHiddenInGame", byte_parm(1), 1),
        Cmd::PawnShow => one("SetActorHiddenInGame", byte_parm(0), 1),
        Cmd::PawnNoCol => one("SetActorEnableCollision", byte_parm(0), 1),
        Cmd::PawnCol => one("SetActorEnableCollision", byte_parm(1), 1),
        _ => {
            let v: Vec<Step> = Vec::new();
            assert(step_views(v@) =~= Seq::empty());
            v
        },
    }
}

fn teleport(cam: &CamData) -> (r: Vec<u8>)
    ensures
        r@ == teleport_parms(*cam),
{
    let mut p = zeroed(64);
    set_u64(&mut p, 0, cam.x);
    set_u64(&mut p, 8, cam.y);
    set_u64(&mut p, 16, cam.z);
    set_u64(&mut p, 0x20, cam.yaw);
    p
}

/// The calls of an effect: materials, blood, overshield, teleport and the like. Many of them
/// fault where the game has not created what they need, so they are made under a guard.
pub fn pawn_fx(c: Cmd, cam: &CamData) -> (r: Vec<Step>)
    ensures
        step_views(r@) == effect_steps(c, *cam),
{
    match c {
        Cmd::CamoOn => {
            let v = one("Camo_RecacheMeshes", no_parms(), 0);
            let v = and(v, "Camo_UpdateIndex", word_parm(3), 4);
            let v = and(v, "ActorApplyMaskedMaterials", no_parms(), 0);
            assert(step_views(v@) =~= effect_steps(c, *cam));
            v
        },
        Cmd::CamoOff => one("ActorApplyOpaqueMaterials", no_parms(), 0),
        Cmd::CamoToggle => one("Camo_Toggle", zeroed(64), 8),
        Cmd::OvershieldOn => one("Overshield_Toggle", block_with(1), 1),
        Cmd::OvershieldOff => one("Overshield_Toggle", block_with(0), 1),
        Cmd::FreezePawn => one("SetActorTickEnabled", block_with(0), 1),
        Cmd::UnfreezePawn => one("SetActorTickEnabled", block_with(1), 1),
        Cmd::ShieldBreak => one("ShieldBreakPP", no_parms(), 0),
        Cmd::NightVis => one("NightVisionReloadCheck", no_parms(), 0),
        Cmd::RechargePP => one("PlayRechargeScreenPP", no_parms(), 0),
        Cmd::BloodHuman => one("ScreenBloodHuman", zeroed(64), 16),
        Cmd::BloodCov => one("ScreenBloodCov", zeroed(64), 16),
        Cmd::BloodGrunt => one("ScreenBloodGrunt", zeroed(64), 16),
        Cmd::BloodBrute => one("ScreenBloodBrute", zeroed(64), 16),
        Cmd::Teleport => one("K2_TeleportTo", teleport(cam), 49),
        Cmd::RadialBlur => one("VehicleRadialBlurPPEffect", zeroed(64), 8),
        Cmd::Breath => one("Biped_BreathEffectToggle", zeroed(64), 24),
        _ => {
            let v: Vec<Step> = Vec::new();
            assert(step_views(v@) =~= Seq::empty());
            v
        },
    }
}

/// Run one command against the player controller `pc`: what is held changes at once, and the
/// rest comes back as work for the host.
pub fn execute(s: &mut PawnState, pc: u64, c: Cmd, cam: &CamData) -> (r: Work)
    ensures
        r@ == work_of(*old(s), pc, c, *cam),
        *final(s) == after(*old(s), c),
{
    match c {
        Cmd::CineOn | Cmd::CineOff | Cmd::Pause | Cmd::Freeze | Cmd::Unfreeze | Cmd::Fov(
            _,
        ) => Work::Calls { on: Callee::Controller, guarded: false, steps: on_controller(c, pc) },
        Cmd::SimFreeze | Cmd::SimUnfreeze => Work::Calls {
            on: Callee::Controller,
            guarded: true,
            steps: on_controller(c, pc),
        },
        Cmd::GhostMode | Cmd::Fly | Cmd::Walk | Cmd::God | Cmd::Ungod | Cmd::PawnHide | Cmd::PawnShow
        | Cmd::PawnNoCol | Cmd::PawnCol => Work::Calls {
            on: Callee::Pawn,
            guarded: false,
            steps: on_pawn(c),
        },
        Cmd::ScaleGiant => {
            s.scale = SCALE_GIANT;
            Work::Done
        },
        Cmd::ScaleTiny => {
            s.scale = SCALE_TINY;
            Work::Done
        },
        Cmd::ScaleNormal => {
            s.scale = SCALE_NORMAL;
            Work::Done
        },
        Cmd::FullbodyOn => Work::ThirdPerson(true),
        Cmd::FullbodyOff => Work::ThirdPerson(false),
        Cmd::ImguiInput => Work::ToggleInput,
        Cmd::Slomo(v) => {
            s.time_dilation = v;
            let report = !s.time_applied;
            s.time_applied = true;
            Work::TimeScale { scale: v, report }
        },
        Cmd::DiagTime => Work::DiagTime,
        Cmd::DiagMission => Work::DiagMission,
        Cmd::NightVision(on) => Work::NightVision(on),
        Cmd::FadeOut => Work::Fade(true),
        Cmd::FadeIn => Work::Fade(false),
        _ => Work::Calls { on: Callee::Pawn, guarded: true, steps: pawn_fx(c, cam) },
    }
}

/// Every command leads somewhere: one that is done with at once changed what is held, and the
/// row of calls of any other is not empty.
pub proof fn law_no_command_is_ignored(s: PawnState, pc: u64, c: Cmd, cam: CamData)
    ensures
        match work_of(s, pc, c, cam) {
            WorkView::Done => after(s, c).scale == SCALE_GIANT || after(s, c).scale == SCALE_TINY
                || after(s, c).scale == SCALE_NORMAL,
            WorkView::Calls { on, guarded, steps } => steps.len() > 0,
            _ => true,
        },
{
}

/// A time scale that was asked for is held on every frame from then on, until another one is.
pub proof fn law_time_scale_held(s: PawnState, v: u32, c: Cmd)
    requires
        !(c is Slomo),
    ensures
        after(s, Cmd::Slomo(v)).time_applied,
        after(s, Cmd::Slomo(v)).time_dilation == v,
        after(after(s, Cmd::Slomo(v)), c).time_applied,
        after(after(s, Cmd::Slomo(v)), c).time_dilation == v,
{
}

/// Two rows of one call each, of the same function on the same object, whose parameter blocks
/// are the same but for byte `i`: it is `x` in the first and `y` in the second.
pub open spec fn differ_in_flag(
    a: WorkView,
    b: WorkView,
    on: Callee,
    name: Seq<char>,
    i: int,
    x: u8,
    y: u8,
) -> bool {
    match (a, b) {
        (
            WorkView::Calls { on: on_a, guarded: guarded_a, steps: p },
            WorkView::Calls { on: on_b, guarded: guarded_b, steps: q },
        ) => {
            &&& on_a == on && on_b == on
            &&& guarded_a == guarded_b
            &&& p.len() == 1 && q.len() == 1
            &&& p[0].name == name && q[0].name == name
            &&& p[0].size == q[0].size
            &&& i < p[0].size
            &&& p[0].parms.len() == q[0].parms.len()
            &&& 0 <= i < p[0].parms.len()
            &&& p[0].size <= p[0].parms.len()
            &&& p[0].parms[i] == x
            &&& q[0].parms[i] == y
            &&& forall|j: int|
                0 <= j < p[0].parms.len() && j != i ==> (#[trigger] p[0].parms[j])
                    == q[0].parms[j]
        },
        _ => false,
    }
}

/// The two commands of each on/off pair make the same call, and differ in its flag alone. The
/// simulation is frozen by a 1 behind the name that comes first in the block, and goes on with a
/// 0. The film mode, the hiding and the overshield come on with a 1 and go off with a 0. What
/// takes something away, such as damage, collision or the pawn's tick, is a 0, and a 1 gives it
/// back.
pub proof fn law_pairs_differ_in_flag(s: PawnState, pc: u64, cam: CamData)
    ensures
        differ_in_flag(
            work_of(s, pc, Cmd::SimFreeze, cam),
            work_of(s, pc, Cmd::SimUnfreeze, cam),
            Callee::Controller,
            "SetGameAndBlamPaused"@,
            8,
            1,
            0,
        ),
        differ_in_flag(
            work_of(s, pc, Cmd::CineOn, cam),
            work_of(s, pc, Cmd::CineOff, cam),
            Callee::Controller,
            "SetCinematicMode"@,
            0,
            1,
            0,
        ),
        differ_in_flag(
            work_of(s, pc, Cmd::God, cam),
            work_of(s, pc, Cmd::Ungod, cam),
            Callee::Pawn,
            "SetCanBeDamaged"@,
            0,
            0,
            1,
        ),
        differ_in_flag(
            work_of(s, pc, Cmd::PawnHide, cam),
            work_of(s, pc, Cmd::PawnShow, cam),
            Callee::Pawn,
            "SetActorHiddenInGame"@,
            0,
            1,
            0,
        ),
        differ_in_flag(
            work_of(s, pc, Cmd::PawnNoCol, cam),
            work_of(s, pc, Cmd::PawnCol, cam),
            Callee::Pawn,
            "SetActorEnableCollision"@,
            0,
            0,
            1,
        ),
        differ_in_flag(
            work_of(s, pc, Cmd::OvershieldOn, cam),
            work_of(s, pc, Cmd::OvershieldOff, cam),
            Callee::Pawn,
            "Overshield_Toggle"@,
            0,
            1,
            0,
        ),
        differ_in_flag(
            work_of(s, pc, Cmd::FreezePawn, cam),
            work_of(s, pc, Cmd::UnfreezePawn, cam),
            Callee::Pawn,
            "SetActorTickEnabled"@,
            0,
            0,
            1,
        ),
{
}

/// The pairs whose work is one of the other operations ask for it with opposite flags.
pub proof fn law_pairs_opposite(s: PawnState, pc: u64, cam: CamData, on: bool)
    ensures
        work_of(s, pc, Cmd::FullbodyOn, cam) == WorkView::ThirdPerson(true),
        work_of(s, pc, Cmd::FullbodyOff, cam) == WorkView::ThirdPerson(false),
        work_of(s, pc, Cmd::FadeOut, cam) == WorkView::Fade(true),
        work_of(s, pc, Cmd::FadeIn, cam) == WorkView::Fade(false),
        work_of(s, pc, Cmd::NightVision(on), cam) == WorkView::NightVision(on),
        work_of(s, pc, Cmd::NightVision(on), cam) != work_of(s, pc, Cmd::NightVision(!on), cam),
{
}

/// The work is calls on `on` of functions with these names, in order.
pub open spec fn calls_named(w: WorkView, on: Callee, names: Seq<Seq<char>>) -> bool {
    match w {
        WorkView::Calls { on: o, guarded, steps } => {
            &&& o == on
            &&& steps.len() == names.len()
            &&& forall|i: int| 0 <= i < steps.len() ==> (#[trigger] steps[i]).name == names[i]
        },
        _ => false,
    }
}

/// Which functions the other commands call, and on what.
pub proof fn law_functions_called(s: PawnState, pc: u64, cam: CamData, v: u32)
    ensures
        calls_named(work_of(s, pc, Cmd::Pause, cam), Callee::Controller, seq!["Pause"@]),
        calls_named(work_of(s, pc, Cmd::Fov(v), cam), Callee::Controller, seq!["FOV"@]),
        calls_named(
            work_of(s, pc, Cmd::Freeze, cam),
            Callee::Controller,
            seq!["DisableInput"@, "SetIgnoreMoveInput"@, "SetIgnoreLookInput"@],
        ),
        calls_named(
            work_of(s, pc, Cmd::Unfreeze, cam),
            Callee::Controller,
            seq!["EnableInput"@, "ResetIgnoreInputFlags"@],
        ),
        calls_named(work_of(s, pc, Cmd::GhostMode, cam), Callee::Pawn, seq!["ClientCheatGhost"@]),
        calls_named(work_of(s, pc, Cmd::Fly, cam), Callee::Pawn, seq!["ClientCheatFly"@]),
        calls_named(work_of(s, pc, Cmd::Walk, cam), Callee::Pawn, seq!["ClientCheatWalk"@]),
        calls_named(
            work_of(s, pc, Cmd::CamoOn, cam),
            Callee::Pawn,
            seq!["Camo_RecacheMeshes"@, "Camo_UpdateIndex"@, "ActorApplyMaskedMaterials"@],
        ),
        calls_named(
            work_of(s, pc, Cmd::CamoOff, cam),
            Callee::Pawn,
            seq!["ActorApplyOpaqueMaterials"@],
        ),
        calls_named(work_of(s, pc, Cmd::CamoToggle, cam), Callee::Pawn, seq!["Camo_Toggle"@]),
        calls_named(work_of(s, pc, Cmd::ShieldBreak, cam), Callee::Pawn, seq!["ShieldBreakPP"@]),
        calls_named(
            work_of(s, pc, Cmd::NightVis, cam),
            Callee::Pawn,
            seq!["NightVisionReloadCheck"@],
        ),
        calls_named(
            work_of(s, pc, Cmd::RechargePP, cam),
            Callee::Pawn,
            seq!["PlayRechargeScreenPP"@],
        ),
        calls_named(work_of(s, pc, Cmd::BloodHuman, cam), Callee::Pawn, seq!["ScreenBloodHuman"@]),
        calls_named(work_of(s, pc, Cmd::BloodCov, cam), Callee::Pawn, seq!["ScreenBloodCov"@]),
        calls_named(work_of(s, pc, Cmd::BloodGrunt, cam), Callee::Pawn, seq!["ScreenBloodGrunt"@]),
        calls_named(work_of(s, pc, Cmd::BloodBrute, cam), Callee::Pawn, seq!["ScreenBloodBrute"@]),
        calls_named(work_of(s, pc, Cmd::Teleport, cam), Callee::Pawn, seq!["K2_TeleportTo"@]),
        calls_named(
            work_of(s, pc, Cmd::RadialBlur, cam),
            Callee::Pawn,
            seq!["VehicleRadialBlurPPEffect"@],
        ),
        calls_named(
            work_of(s, pc, Cmd::Breath, cam),
            Callee::Pawn,
            seq!["Biped_BreathEffectToggle"@],
        ),
{
}

/// The block of every call holds the parameters that the function takes, and a fault in a call
/// ends the row for the effects and the simulation's pause alone.
pub proof fn law_blocks_hold_parameters(s: PawnState, pc: u64, c: Cmd, cam: CamData, i: int)
    ensures
        work_of(s, pc, c, cam) matches WorkView::Calls { on, guarded, steps } ==> {
            &&& 0 <= i < steps.len() ==> 0 <= steps[i].size <= steps[i].parms.len()
            &&& guarded == !(c is CineOn || c is CineOff || c is Pause || c is Freeze
                || c is Unfreeze || c is Fov || c is GhostMode || c is Fly || c is Walk || c is God
                || c is Ungod || c is PawnHide || c is PawnShow || c is PawnNoCol || c is PawnCol)
        },
{
}

/// While the input is frozen the controller's moves and looks are ignored, both calls with a 1;
/// input is taken from and given back to the controller itself.
pub proof fn law_freeze_takes_input(pc: u64)
    ensures
        controller_steps(Cmd::Freeze, pc)[0].parms == controller_steps(Cmd::Unfreeze, pc)[0].parms,
        controller_steps(Cmd::Freeze, pc)[0].parms == le64(pc),
        controller_steps(Cmd::Freeze, pc)[1].parms == seq![1u8],
        controller_steps(Cmd::Freeze, pc)[2].parms == seq![1u8],
        controller_steps(Cmd::Unfreeze, pc)[1].parms.len() == 0,
{
}

/// The blocks of effects that take no choice are all zero. Camouflage is set by the index 3.
pub proof fn law_plain_effects(c: Cmd, cam: CamData, i: int)
    requires
        c is CamoToggle || c is BloodHuman || c is BloodCov || c is BloodGrunt || c is BloodBrute
            || c is RadialBlur || c is Breath,
        0 <= i < 64,
    ensures
        effect_steps(c, cam)[0].parms.len() == 64,
        effect_steps(c, cam)[0].parms[i] == 0,
        effect_steps(Cmd::CamoOn, cam)[1].parms == seq![3u8, 0, 0, 0],
{
    assert(le32(3) =~= seq![3u8, 0, 0, 0]);
}

/// A teleport leads to where the camera is, with the yaw of the camera and neither its pitch nor
/// its roll.
pub proof fn law_teleport_to_camera(cam: CamData, i: int)
    requires
        0 <= i < 8,
    ensures
        teleport_parms(cam).len() == 64,
        teleport_parms(cam)[i] == le64(cam.x)[i],
        teleport_parms(cam)[8 + i] == le64(cam.y)[i],
        teleport_parms(cam)[16 + i] == le64(cam.z)[i],
        teleport_parms(cam)[24 + i] == 0,
        teleport_parms(cam)[32 + i] == le64(cam.yaw)[i],
        teleport_parms(cam)[40 + i] == 0,
        teleport_parms(cam)[48 + i] == 0,
        teleport_parms(cam)[56 + i] == 0,
{
}

/// The size commands force a size of 3, of 0.3 and of 1, and hold nothing else. No other command
/// changes the size.
pub proof fn law_sizes(s: PawnState, c: Cmd)
    ensures
        after(s, Cmd::ScaleGiant) == (PawnState { scale: 0x4008_0000_0000_0000, ..s }),
        after(s, Cmd::ScaleTiny) == (PawnState { scale: 0x3fd3_3333_3333_3333, ..s }),
        after(s, Cmd::ScaleNormal) == (PawnState { scale: 0x3ff0_0000_0000_0000, ..s }),
        !(c is ScaleGiant || c is ScaleTiny || c is ScaleNormal) ==> after(s, c).scale == s.scale,
        !(c is Slomo) ==> after(s, c).time_dilation == s.time_dilation && after(s, c).time_applied
            == s.time_applied,
        after(s, c).pc == s.pc,
        after(s, c).fullbody == s.fullbody,
{
}

/// A time scale is handed on as it is, and only the first one is reported.
pub proof fn law_time_scale_handed_on(s: PawnState, pc: u64, v: u32, w: u32, cam: CamData)
    ensures
        work_of(s, pc, Cmd::Slomo(v), cam) matches WorkView::TimeScale { scale, report } && scale
            == v && report == !s.time_applied,
        work_of(after(s, Cmd::Slomo(v)), pc, Cmd::Slomo(w), cam) == (WorkView::TimeScale {
            scale: w,
            report: false,
        }),
{
}

} // verus!
