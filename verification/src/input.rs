//! Keys: the command shortcuts, and flying the free camera.
//!
//! Every command shortcut is Ctrl and a key. The keys of the free camera work alone.

use vstd::prelude::*;

use crate::cmd;
use crate::cmd::{Cmd, Queue};
use crate::hooks::imgui;
use crate::hooks::imgui::{Panel, toggled};
use crate::ieee::{
    ONE, clamp64, clamped64, greater32, greater64, less32, less64, lesser32, lesser64, max32, max64,
    min32, min64, nan32, nan64,
};
use crate::memory::Memory;
use crate::paths;
use crate::paths::{Kf, Path, captured};
use crate::state::CamData;

verus! {

pub const VK_INSERT: u8 = 0x2d;

pub const VK_SPACE: u8 = 0x20;

pub const VK_LSHIFT: u8 = 0xa0;

pub const VK_RSHIFT: u8 = 0xa1;

pub const VK_LCTRL: u8 = 0xa2;

pub const VK_RCTRL: u8 = 0xa3;

pub const VK_UP: u8 = 0x26;

pub const VK_DOWN: u8 = 0x28;

pub const VK_LEFT: u8 = 0x25;

pub const VK_RIGHT: u8 = 0x27;

pub const VK_OEM_4: u8 = 0xdb; // [

pub const VK_OEM_6: u8 = 0xdd; // ]

pub const VK_HOME: u8 = 0x24;

pub const VK_END: u8 = 0x23;

pub const VK_F5: u8 = 0x74;

pub const VK_F6: u8 = 0x75;

pub const VK_OEM_COMMA: u8 = 0xbc;

pub const VK_OEM_PERIOD: u8 = 0xbe;

pub const VK_OEM_2: u8 = 0xbf; // slash

pub const K_A: u8 = 0x41;

pub const K_B: u8 = 0x42;

pub const K_C: u8 = 0x43;

pub const K_D: u8 = 0x44;

pub const K_E: u8 = 0x45;

pub const K_G: u8 = 0x47;

pub const K_I: u8 = 0x49;

pub const K_J: u8 = 0x4a;

pub const K_K: u8 = 0x4b;

pub const K_L: u8 = 0x4c;

pub const K_M: u8 = 0x4d;

pub const K_P: u8 = 0x50;

pub const K_Q: u8 = 0x51;

pub const K_S: u8 = 0x53;

pub const K_W: u8 = 0x57;

pub const K_X: u8 = 0x58;

pub const K_Z: u8 = 0x5a;

/// Bit pattern of `0.05`, the slowest time scale.
pub const SLOWEST: u32 = 0x3d4c_cccd;

/// Bit pattern of `4.0`, the fastest time scale.
pub const FASTEST: u32 = 0x4080_0000;

/// Bit pattern of `20.0`, the narrowest field of view.
pub const NARROWEST: u32 = 0x41a0_0000;

/// Bit pattern of `140.0`, the widest field of view.
pub const WIDEST: u32 = 0x430c_0000;

/// Bit pattern of the double `89.0`: how far up the camera can look.
pub const PITCH_TOP: u64 = 0x4056_4000_0000_0000;

/// Bit pattern of the double `-89.0`.
pub const PITCH_BOTTOM: u64 = 0xc056_4000_0000_0000;

/// The keys at one moment, by virtual-key code: which were pressed since the last time, and
/// which are down.
pub struct Keys {
    pub pressed: [bool; 256],
    pub down: [bool; 256],
}

/// Whether the key was pressed: once per press.
pub fn edge(k: &Keys, vk: u8) -> (r: bool)
    ensures
        r == k.pressed[vk as int],
{
    k.pressed[vk as usize]
}

/// Whether the key is down.
pub fn held(k: &Keys, vk: u8) -> (r: bool)
    ensures
        r == k.down[vk as int],
{
    k.down[vk as usize]
}

/// A Ctrl key is down.
pub open spec fn ctrl(k: Keys) -> bool {
    k.down[VK_LCTRL as int] || k.down[VK_RCTRL as int]
}

fn ctrl_held(k: &Keys) -> (r: bool)
    ensures
        r == ctrl(*k),
{
    held(k, VK_LCTRL) || held(k, VK_RCTRL)
}

/// The shortcut with the key `vk` was pressed.
pub open spec fn shortcut(k: Keys, vk: u8) -> bool {
    ctrl(k) && k.pressed[vk as int]
}

fn chosen(k: &Keys, vk: u8) -> (r: bool)
    ensures
        r == shortcut(*k, vk),
{
    ctrl_held(k) && edge(k, vk)
}

/// A command, if it is asked for.
pub open spec fn when(asked: bool, c: Cmd) -> Seq<Cmd> {
    if asked {
        seq![c]
    } else {
        Seq::empty()
    }
}

/// The commands that the shortcuts ask for, in order. `slower` and `faster` are the time scale
/// one step down and one step up.
pub open spec fn hotkey_commands(k: Keys, slower: u32, faster: u32) -> Seq<Cmd> {
    when(shortcut(k, K_P), Cmd::Pause) + when(shortcut(k, K_I), Cmd::ImguiInput) + when(
        shortcut(k, VK_HOME),
        Cmd::CineOn,
    ) + when(shortcut(k, VK_END), Cmd::CineOff) + when(shortcut(k, VK_F5), Cmd::FadeOut) + when(
        shortcut(k, VK_F6),
        Cmd::FadeIn,
    ) + when(shortcut(k, VK_OEM_COMMA), Cmd::Slomo(greater32(slower, SLOWEST))) + when(
        shortcut(k, VK_OEM_PERIOD),
        Cmd::Slomo(lesser32(faster, FASTEST)),
    ) + when(shortcut(k, VK_OEM_2), Cmd::Slomo(ONE))
}

fn push_if(q: &mut Queue, asked: bool, c: Cmd)
    requires
        old(q).wf(),
    ensures
        final(q).wf(),
        final(q)@ == old(q)@ + when(asked, c),
{
    if asked {
        cmd::push(q, c);
    }
    assert(q@ =~= old(q)@ + when(asked, c));
}

fn push_hotkeys(k: &Keys, q: &mut Queue, slower: u32, faster: u32)
    requires
        old(q).wf(),
    ensures
        final(q).wf(),
        final(q)@ == old(q)@ + hotkey_commands(*k, slower, faster),
{
    push_if(q, chosen(k, K_P), Cmd::Pause);
    push_if(q, chosen(k, K_I), Cmd::ImguiInput);
    push_if(q, chosen(k, VK_HOME), Cmd::CineOn);
    push_if(q, chosen(k, VK_END), Cmd::CineOff);
    push_if(q, chosen(k, VK_F5), Cmd::FadeOut);
    push_if(q, chosen(k, VK_F6), Cmd::FadeIn);
    push_if(q, chosen(k, VK_OEM_COMMA), Cmd::Slomo(max32(slower, SLOWEST)));
    push_if(q, chosen(k, VK_OEM_PERIOD), Cmd::Slomo(min32(faster, FASTEST)));
    push_if(q, chosen(k, VK_OEM_2), Cmd::Slomo(ONE));
    proof {
        let before = old(q)@;
        let c1 = when(shortcut(*k, K_P), Cmd::Pause);
        let c2 = when(shortcut(*k, K_I), Cmd::ImguiInput);
        let c3 = when(shortcut(*k, VK_HOME), Cmd::CineOn);
        let c4 = when(shortcut(*k, VK_END), Cmd::CineOff);
        let c5 = when(shortcut(*k, VK_F5), Cmd::FadeOut);
        let c6 = when(shortcut(*k, VK_F6), Cmd::FadeIn);
        let c7 = when(shortcut(*k, VK_OEM_COMMA), Cmd::Slomo(greater32(slower, SLOWEST)));
        let c8 = when(shortcut(*k, VK_OEM_PERIOD), Cmd::Slomo(lesser32(faster, FASTEST)));
        let c9 = when(shortcut(*k, VK_OEM_2), Cmd::Slomo(ONE));
        lemma_regroup(before, c1, c2);
        lemma_regroup(before, c1 + c2, c3);
        lemma_regroup(before, c1 + c2 + c3, c4);
        lemma_regroup(before, c1 + c2 + c3 + c4, c5);
        lemma_regroup(before, c1 + c2 + c3 + c4 + c5, c6);
        lemma_regroup(before, c1 + c2 + c3 + c4 + c5 + c6, c7);
        lemma_regroup(before, c1 + c2 + c3 + c4 + c5 + c6 + c7, c8);
        lemma_regroup(before, c1 + c2 + c3 + c4 + c5 + c6 + c7 + c8, c9);
    }
}

proof fn lemma_regroup(a: Seq<Cmd>, b: Seq<Cmd>, c: Seq<Cmd>)
    ensures
        a + (b + c) == (a + b) + c,
{
    assert(a + (b + c) =~= (a + b) + c);
}

/// The keyframes after the path shortcuts: capture, then clear.
pub open spec fn hotkey_keyframes(k: Keys, kf: Seq<Kf>, c: CamData) -> Seq<Kf> {
    if shortcut(k, K_L) {
        Seq::empty()
    } else if shortcut(k, K_K) {
        captured(kf, c)
    } else {
        kf
    }
}

/// Whether a path is playing, and how far into it.
pub struct PathTime {
    pub playing: bool,
    pub t: u64,
}

/// The playing of the path and the camera after the path shortcuts: capture, then start or stop,
/// then clear. Only a path with two keyframes or more is played, and what plays is seen through
/// the free camera.
pub open spec fn hotkey_playing(k: Keys, p: PathTime, kf: Seq<Kf>, c: CamData) -> (
    PathTime,
    CamData,
) {
    let all = if shortcut(k, K_K) {
        captured(kf, c)
    } else {
        kf
    };
    let plays = shortcut(k, K_J) && all.len() >= 2;
    let playing = if plays {
        !p.playing
    } else {
        p.playing
    };
    (
        PathTime {
            playing: playing && !shortcut(k, K_L),
            t: if plays {
                0
            } else {
                p.t
            },
        },
        if plays && playing {
            CamData { freecam: true, ..c }
        } else {
            c
        },
    )
}

/// Poll the command shortcuts: the panel, the commands for the game thread, and the camera path.
/// `slower` and `faster` are the time scale less and plus a tenth. `detour` is the panel's draw
/// callback. True if the possession key was pressed.
pub fn poll_hotkeys(
    k: &Keys,
    q: &mut Queue,
    panel: &mut Panel,
    m: &mut Memory,
    base: u64,
    detour: u64,
    path: &mut Path,
    cam: &mut CamData,
    slower: u32,
    faster: u32,
) -> (r: bool)
    requires
        old(q).wf(),
        old(path).wf(),
    ensures
        r == shortcut(*k, K_G),
        final(q).wf(),
        final(q)@ == old(q)@ + hotkey_commands(*k, slower, faster),
        final(path).wf(),
        final(path).kf@ == hotkey_keyframes(*k, old(path).kf@, *old(cam)),
        ({
            let was = PathTime { playing: old(path).playing, t: old(path).t };
            let (now, seen) = hotkey_playing(*k, was, old(path).kf@, *old(cam));
            &&& final(path).playing == now.playing
            &&& final(path).t == now.t
            &&& final(path).dur == old(path).dur
            &&& *final(cam) == seen
        }),
        ({
            let t = toggled(*old(panel), old(m)@, base, detour);
            if shortcut(*k, K_B) {
                *final(panel) == t.0 && final(m)@ == t.1
            } else {
                *final(panel) == *old(panel) && final(m)@ == old(m)@
            }
        }),
{
    if chosen(k, K_B) {
        imgui::toggle(panel, m, base, detour);
    }
    push_hotkeys(k, q, slower, faster);
    if chosen(k, K_K) {
        crate::paths::add(path, cam);
    }
    if chosen(k, K_J) {
        paths::toggle_play(path, cam);
    }
    if chosen(k, K_L) {
        paths::clear(path);
    }
    chosen(k, K_G)
}

/// Without Ctrl, no shortcut does anything, whatever is typed.
pub proof fn law_typing_fires_nothing(k: Keys, slower: u32, faster: u32, vk: u8)
    requires
        !ctrl(k),
    ensures
        !shortcut(k, vk),
        hotkey_commands(k, slower, faster) == Seq::<Cmd>::empty(),
{
    assert(hotkey_commands(k, slower, faster) =~= Seq::<Cmd>::empty());
}

/// One movement of the free camera. The host adds its amount up, with the camera as it is by
/// then, and hands the sums to [`settle`].
#[derive(Clone, Copy, Debug, PartialEq, Eq, Structural)]
pub enum Move {
    /// Along the direction of view: x, y and z change.
    Forward,
    Back,
    /// To the side: x and y change.
    Right,
    Left,
    /// Straight up or down: z changes.
    Up,
    Down,
    /// The pitch changes.
    LookUp,
    LookDown,
    /// The yaw changes.
    LookLeft,
    LookRight,
    /// With the mouse: yaw and pitch change.
    Mouse,
    /// The field of view changes.
    FovIn,
    FovOut,
    /// The roll changes.
    RollLeft,
    RollRight,
    /// The roll goes to zero.
    RollReset,
}

/// A movement, if it is asked for.
pub open spec fn moving(asked: bool, x: Move) -> Seq<Move> {
    if asked {
        seq![x]
    } else {
        Seq::empty()
    }
}

/// The movements that the keys ask for, in order.
pub open spec fn moves(k: Keys, mouse: bool) -> Seq<Move> {
    moving(k.down[K_W as int], Move::Forward) + moving(k.down[K_S as int], Move::Back) + moving(
        k.down[K_D as int],
        Move::Right,
    ) + moving(k.down[K_A as int], Move::Left) + moving(
        k.down[K_E as int] || k.down[VK_SPACE as int],
        Move::Up,
    ) + moving(k.down[K_Q as int] || ctrl(k), Move::Down) + moving(
        k.down[VK_UP as int],
        Move::LookUp,
    ) + moving(k.down[VK_DOWN as int], Move::LookDown) + moving(
        k.down[VK_LEFT as int],
        Move::LookLeft,
    ) + moving(k.down[VK_RIGHT as int], Move::LookRight) + moving(mouse, Move::Mouse) + moving(
        k.down[VK_OEM_4 as int],
        Move::FovIn,
    ) + moving(k.down[VK_OEM_6 as int], Move::FovOut) + moving(
        k.down[K_Z as int],
        Move::RollLeft,
    ) + moving(k.down[K_C as int], Move::RollRight) + moving(k.down[K_X as int], Move::RollReset)
}

fn push_move(v: &mut Vec<Move>, asked: bool, x: Move)
    ensures
        final(v)@ == old(v)@ + moving(asked, x),
{
    if asked {
        v.push(x);
    }
    assert(v@ =~= old(v)@ + moving(asked, x));
}

fn list_moves(k: &Keys, mouse: bool) -> (r: Vec<Move>)
    ensures
        r@ == moves(*k, mouse),
{
    let mut v: Vec<Move> = Vec::new();
    push_move(&mut v, held(k, K_W), Move::Forward);
    push_move(&mut v, held(k, K_S), Move::Back);
    push_move(&mut v, held(k, K_D), Move::Right);
    push_move(&mut v, held(k, K_A), Move::Left);
    push_move(&mut v, held(k, K_E) || held(k, VK_SPACE), Move::Up);
    push_move(&mut v, held(k, K_Q) || ctrl_held(k), Move::Down);
    push_move(&mut v, held(k, VK_UP), Move::LookUp);
    push_move(&mut v, held(k, VK_DOWN), Move::LookDown);
    push_move(&mut v, held(k, VK_LEFT), Move::LookLeft);
    push_move(&mut v, held(k, VK_RIGHT), Move::LookRight);
    push_move(&mut v, mouse, Move::Mouse);
    push_move(&mut v, held(k, VK_OEM_4), Move::FovIn);
    push_move(&mut v, held(k, VK_OEM_6), Move::FovOut);
    push_move(&mut v, held(k, K_Z), Move::RollLeft);
    push_move(&mut v, held(k, K_C), Move::RollRight);
    push_move(&mut v, held(k, K_X), Move::RollReset);
    assert(v@ =~= moves(*k, mouse));
    v
}

/// What a poll of the free camera's keys comes to.
pub struct Flight {
    /// The free camera was switched.
    pub toggled: bool,
    /// Mouse-look was switched.
    pub mouse_toggled: bool,
    /// Move at the faster speed.
    pub fast: bool,
    /// The movements to make, in order.
    pub moves: Vec<Move>,
}

/// The camera after its two switches: switched on, it takes over the game's point of view.
pub open spec fn switched(k: Keys, c: CamData) -> CamData {
    let on = if k.pressed[VK_INSERT as int] {
        !c.freecam
    } else {
        c.freecam
    };
    CamData {
        freecam: on,
        seed: c.seed || (k.pressed[VK_INSERT as int] && on),
        mouse: if shortcut(k, K_M) {
            !c.mouse
        } else {
            c.mouse
        },
        ..c
    }
}

/// Poll the free camera's keys: Insert switches it, Ctrl and M switches mouse-look, and while it
/// is on the keys that are down move it.
pub fn poll_freecam(k: &Keys, c: &mut CamData) -> (r: Flight)
    ensures
        *final(c) == switched(*k, *old(c)),
        r.toggled == k.pressed[VK_INSERT as int],
        r.mouse_toggled == shortcut(*k, K_M),
        r.fast == (k.down[VK_LSHIFT as int] || k.down[VK_RSHIFT as int]),
        r.moves@ == if final(c).freecam {
            moves(*k, final(c).mouse)
        } else {
            Seq::empty()
        },
{
    let toggled = edge(k, VK_INSERT);
    if toggled {
        c.freecam = !c.freecam;
        if c.freecam {
            c.seed = true;
        }
    }
    let mouse_toggled = chosen(k, K_M);
    if mouse_toggled {
        c.mouse = !c.mouse;
    }
    let fast = held(k, VK_LSHIFT) || held(k, VK_RSHIFT);
    let moves = if c.freecam {
        list_moves(k, c.mouse)
    } else {
        Vec::new()
    };
    Flight { toggled, mouse_toggled, fast, moves }
}

/// The sums of a movement: what each coordinate would be with it made.
#[derive(Clone, Copy)]
pub struct Sums {
    pub x: u64,
    pub y: u64,
    pub z: u64,
    pub pitch: u64,
    pub yaw: u64,
    pub roll: u64,
    pub fov: u32,
}

/// The camera after a movement: the coordinates that it changes take their sums, within the
/// limits of pitch and field of view.
pub open spec fn settled(c: CamData, x: Move, s: Sums) -> CamData {
    match x {
        Move::Forward | Move::Back => CamData { x: s.x, y: s.y, z: s.z, ..c },
        Move::Right | Move::Left => CamData { x: s.x, y: s.y, ..c },
        Move::Up | Move::Down => CamData { z: s.z, ..c },
        Move::LookUp => CamData { pitch: lesser64(s.pitch, PITCH_TOP), ..c },
        Move::LookDown => CamData { pitch: greater64(s.pitch, PITCH_BOTTOM), ..c },
        Move::LookLeft | Move::LookRight => CamData { yaw: s.yaw, ..c },
        Move::Mouse => CamData {
            yaw: s.yaw,
            pitch: clamped64(s.pitch, PITCH_BOTTOM, PITCH_TOP),
            ..c
        },
        Move::FovIn => CamData { fov: greater32(s.fov, NARROWEST), ..c },
        Move::FovOut => CamData { fov: lesser32(s.fov, WIDEST), ..c },
        Move::RollLeft | Move::RollRight => CamData { roll: s.roll, ..c },
        Move::RollReset => CamData { roll: 0, ..c },
    }
}

/// Make a movement.
pub fn settle(c: &mut CamData, x: Move, s: &Sums)
    ensures
        *final(c) == settled(*old(c), x, *s),
{
    match x {
        Move::Forward | Move::Back => {
            c.x = s.x;
            c.y = s.y;
            c.z = s.z;
        },
        Move::Right | Move::Left => {
            c.x = s.x;
            c.y = s.y;
        },
        Move::Up | Move::Down => {
            c.z = s.z;
        },
        Move::LookUp => {
            c.pitch = min64(s.pitch, PITCH_TOP);
        },
        Move::LookDown => {
            c.pitch = max64(s.pitch, PITCH_BOTTOM);
        },
        Move::LookLeft | Move::LookRight => {
            c.yaw = s.yaw;
        },
        Move::Mouse => {
            c.yaw = s.yaw;
            c.pitch = clamp64(s.pitch, PITCH_BOTTOM, PITCH_TOP);
        },
        Move::FovIn => {
            c.fov = max32(s.fov, NARROWEST);
        },
        Move::FovOut => {
            c.fov = min32(s.fov, WIDEST);
        },
        Move::RollLeft | Move::RollRight => {
            c.roll = s.roll;
        },
        Move::RollReset => {
            c.roll = 0;
        },
    }
}

/// No movement takes the pitch further out than the limits, or the field of view: looking up
/// never leads above the top, looking down never below the bottom, narrowing never below the
/// narrowest and widening never above the widest.
pub proof fn law_limits_hold(c: CamData, s: Sums)
    ensures
        !less64(PITCH_TOP, settled(c, Move::LookUp, s).pitch),
        !less64(settled(c, Move::LookDown, s).pitch, PITCH_BOTTOM),
        !less64(PITCH_TOP, settled(c, Move::Mouse, s).pitch),
        !less64(settled(c, Move::Mouse, s).pitch, PITCH_BOTTOM),
        !less32(settled(c, Move::FovIn, s).fov, NARROWEST),
        !less32(WIDEST, settled(c, Move::FovOut, s).fov),
{
}

/// Pitch and field of view are numbers within both their limits.
pub open spec fn within_limits(c: CamData) -> bool {
    &&& !nan64(c.pitch)
    &&& !less64(c.pitch, PITCH_BOTTOM)
    &&& !less64(PITCH_TOP, c.pitch)
    &&& !nan32(c.fov)
    &&& !less32(c.fov, NARROWEST)
    &&& !less32(WIDEST, c.fov)
}

/// The sums go the way the movement says: looking up does not lower the pitch, narrowing does not
/// widen the field of view, and so on. The sum of a mouse movement is a number.
pub open spec fn sums_fit(c: CamData, x: Move, s: Sums) -> bool {
    match x {
        Move::LookUp => !less64(s.pitch, c.pitch),
        Move::LookDown => !less64(c.pitch, s.pitch),
        Move::Mouse => !nan64(s.pitch),
        Move::FovIn => !less32(c.fov, s.fov),
        Move::FovOut => !less32(s.fov, c.fov),
        _ => true,
    }
}

/// A movement keeps a camera within both limits of pitch and of field of view, and leaves the
/// lock of the field of view and the switches alone.
pub proof fn law_move_stays_within(c: CamData, x: Move, s: Sums)
    requires
        within_limits(c),
        sums_fit(c, x, s),
    ensures
        within_limits(settled(c, x, s)),
        settled(c, x, s).fov_locked == c.fov_locked,
        settled(c, x, s).freecam == c.freecam,
        settled(c, x, s).mouse == c.mouse,
        settled(c, x, s).seed == c.seed,
{
}

/// The camera after a row of movements, each with its sums.
pub open spec fn flown(c: CamData, v: Seq<(Move, Sums)>) -> CamData
    decreases v.len(),
{
    if v.len() == 0 {
        c
    } else {
        settled(flown(c, v.drop_last()), v.last().0, v.last().1)
    }
}

/// A poll of the free camera's keys, with all the movements that it asks for, keeps the camera
/// within both limits of pitch and of field of view, whatever the keys and the mouse are, and
/// leaves the lock of the field of view alone.
pub proof fn law_flight_stays_within(k: Keys, c: CamData, v: Seq<(Move, Sums)>)
    requires
        within_limits(c),
        forall|i: int|
            0 <= i < v.len() ==> sums_fit(
                flown(switched(k, c), v.take(i)),
                (#[trigger] v[i]).0,
                v[i].1,
            ),
    ensures
        within_limits(flown(switched(k, c), v)),
        flown(switched(k, c), v).fov_locked == c.fov_locked,
    decreases v.len(),
{
    if v.len() > 0 {
        let init = v.drop_last();
        assert forall|i: int| 0 <= i < init.len() implies sums_fit(
            flown(switched(k, c), init.take(i)),
            (#[trigger] init[i]).0,
            init[i].1,
        ) by {
            assert(init.take(i) =~= v.take(i));
            assert(init[i] == v[i]);
        }
        law_flight_stays_within(k, c, init);
        assert(v.take(v.len() - 1) =~= init);
        assert(sums_fit(flown(switched(k, c), v.take(v.len() - 1)), v[v.len() - 1].0, v.last().1));
        law_move_stays_within(flown(switched(k, c), init), v.last().0, v.last().1);
    }
}

/// Each movement gives the coordinates that it is for the sums that were handed in, up to the
/// limits of 89 degrees of pitch either way and of 20 to 140 degrees of field of view, and keeps
/// every other coordinate. Only a reset of the roll takes no sum: the roll is zero after it.
pub proof fn law_settled_coordinates(c: CamData, x: Move, s: Sums)
    ensures
        ({
            let n = settled(c, x, s);
            &&& n.x == if x is Forward || x is Back || x is Right || x is Left {
                s.x
            } else {
                c.x
            }
            &&& n.y == if x is Forward || x is Back || x is Right || x is Left {
                s.y
            } else {
                c.y
            }
            &&& n.z == if x is Forward || x is Back || x is Up || x is Down {
                s.z
            } else {
                c.z
            }
            &&& n.yaw == if x is LookLeft || x is LookRight || x is Mouse {
                s.yaw
            } else {
                c.yaw
            }
            &&& n.roll == if x is RollLeft || x is RollRight {
                s.roll
            } else if x is RollReset {
                0
            } else {
                c.roll
            }
            &&& !(x is LookUp || x is LookDown || x is Mouse) ==> n.pitch == c.pitch
            &&& (x is LookUp || x is Mouse) && less64(0x4056_4000_0000_0000, s.pitch) ==> n.pitch
                == 0x4056_4000_0000_0000
            &&& (x is LookDown || x is Mouse) && less64(s.pitch, 0xc056_4000_0000_0000) ==> n.pitch
                == 0xc056_4000_0000_0000
            &&& x is LookUp && less64(s.pitch, 0x4056_4000_0000_0000) ==> n.pitch == s.pitch
            &&& x is LookDown && less64(0xc056_4000_0000_0000, s.pitch) ==> n.pitch == s.pitch
            &&& x is Mouse && less64(s.pitch, 0x4056_4000_0000_0000) && less64(
                0xc056_4000_0000_0000,
                s.pitch,
            ) ==> n.pitch == s.pitch
            &&& !(x is FovIn || x is FovOut) ==> n.fov == c.fov
            &&& x is FovIn && less32(s.fov, 0x41a0_0000) ==> n.fov == 0x41a0_0000
            &&& x is FovIn && less32(0x41a0_0000, s.fov) ==> n.fov == s.fov
            &&& x is FovOut && less32(0x430c_0000, s.fov) ==> n.fov == 0x430c_0000
            &&& x is FovOut && less32(s.fov, 0x430c_0000) ==> n.fov == s.fov
            &&& n.fov_locked == c.fov_locked
            &&& n.freecam == c.freecam
            &&& n.mouse == c.mouse
            &&& n.seed == c.seed
        }),
{
}

proof fn lemma_moving(v: Seq<Move>, asked: bool, x: Move, y: Move)
    ensures
        (v + moving(asked, x)).contains(y) <==> v.contains(y) || (asked && x == y),
{
    let w = v + moving(asked, x);
    if v.contains(y) {
        let i = choose|i: int| 0 <= i < v.len() && v[i] == y;
        assert(w[i] == y);
    }
    if asked && x == y {
        assert(w[v.len() as int] == y);
    }
    if w.contains(y) {
        let i = choose|i: int| 0 <= i < w.len() && w[i] == y;
        if i < v.len() {
            assert(v[i] == y);
        }
    }
}

/// Which key, by its virtual-key code, asks for which movement: W and S go forward and back, D
/// and A to the right and the left, E and the space bar up, Q and Ctrl down, the arrows turn the
/// view, the square brackets change the field of view, Z and C roll and X takes the roll out.
#[verifier::rlimit(60)]
pub proof fn law_keys_of_moves(k: Keys, mouse: bool, y: Move)
    ensures
        moves(k, mouse).contains(y) == match y {
            Move::Forward => k.down[0x57],
            Move::Back => k.down[0x53],
            Move::Right => k.down[0x44],
            Move::Left => k.down[0x41],
            Move::Up => k.down[0x45] || k.down[0x20],
            Move::Down => k.down[0x51] || k.down[0xa2] || k.down[0xa3],
            Move::LookUp => k.down[0x26],
            Move::LookDown => k.down[0x28],
            Move::LookLeft => k.down[0x25],
            Move::LookRight => k.down[0x27],
            Move::Mouse => mouse,
            Move::FovIn => k.down[0xdb],
            Move::FovOut => k.down[0xdd],
            Move::RollLeft => k.down[0x5a],
            Move::RollRight => k.down[0x43],
            Move::RollReset => k.down[0x58],
        },
{
    let v0 = Seq::<Move>::empty();
    let v1 = moving(k.down[K_W as int], Move::Forward);
    assert(v0 + v1 =~= v1);
    lemma_moving(v0, k.down[K_W as int], Move::Forward, y);
    let v2 = v1 + moving(k.down[K_S as int], Move::Back);
    lemma_moving(v1, k.down[K_S as int], Move::Back, y);
    let v3 = v2 + moving(k.down[K_D as int], Move::Right);
    lemma_moving(v2, k.down[K_D as int], Move::Right, y);
    let v4 = v3 + moving(k.down[K_A as int], Move::Left);
    lemma_moving(v3, k.down[K_A as int], Move::Left, y);
    let up = k.down[K_E as int] || k.down[VK_SPACE as int];
    let v5 = v4 + moving(up, Move::Up);
    lemma_moving(v4, up, Move::Up, y);
    let down = k.down[K_Q as int] || ctrl(k);
    let v6 = v5 + moving(down, Move::Down);
    lemma_moving(v5, down, Move::Down, y);
    let v7 = v6 + moving(k.down[VK_UP as int], Move::LookUp);
    lemma_moving(v6, k.down[VK_UP as int], Move::LookUp, y);
    let v8 = v7 + moving(k.down[VK_DOWN as int], Move::LookDown);
    lemma_moving(v7, k.down[VK_DOWN as int], Move::LookDown, y);
    let v9 = v8 + moving(k.down[VK_LEFT as int], Move::LookLeft);
    lemma_moving(v8, k.down[VK_LEFT as int], Move::LookLeft, y);
    let v10 = v9 + moving(k.down[VK_RIGHT as int], Move::LookRight);
    lemma_moving(v9, k.down[VK_RIGHT as int], Move::LookRight, y);
    let v11 = v10 + moving(mouse, Move::Mouse);
    lemma_moving(v10, mouse, Move::Mouse, y);
    let v12 = v11 + moving(k.down[VK_OEM_4 as int], Move::FovIn);
    lemma_moving(v11, k.down[VK_OEM_4 as int], Move::FovIn, y);
    let v13 = v12 + moving(k.down[VK_OEM_6 as int], Move::FovOut);
    lemma_moving(v12, k.down[VK_OEM_6 as int], Move::FovOut, y);
    let v14 = v13 + moving(k.down[K_Z as int], Move::RollLeft);
    lemma_moving(v13, k.down[K_Z as int], Move::RollLeft, y);
    let v15 = v14 + moving(k.down[K_C as int], Move::RollRight);
    lemma_moving(v14, k.down[K_C as int], Move::RollRight, y);
    lemma_moving(v15, k.down[K_X as int], Move::RollReset, y);
}

proof fn lemma_when(v: Seq<Cmd>, asked: bool, x: Cmd, y: Cmd)
    ensures
        (v + when(asked, x)).contains(y) <==> v.contains(y) || (asked && x == y),
{
    let w = v + when(asked, x);
    if v.contains(y) {
        let i = choose|i: int| 0 <= i < v.len() && v[i] == y;
        assert(w[i] == y);
    }
    if asked && x == y {
        assert(w[v.len() as int] == y);
    }
    if w.contains(y) {
        let i = choose|i: int| 0 <= i < w.len() && w[i] == y;
        if i < v.len() {
            assert(v[i] == y);
        }
    }
}

/// Which key, by its virtual-key code, asks with Ctrl for which command: P pauses, I gives the
/// panel the input, Home and End switch the film mode on and off, F5 and F6 fade out and in, the
/// comma slows down, the full stop speeds up and the slash brings the usual speed back. No other
/// command comes of a key.
pub proof fn law_keys_of_commands(k: Keys, slower: u32, faster: u32, y: Cmd)
    ensures
        hotkey_commands(k, slower, faster).contains(y) == ((k.down[0xa2] || k.down[0xa3])
            && match y {
            Cmd::Pause => k.pressed[0x50],
            Cmd::ImguiInput => k.pressed[0x49],
            Cmd::CineOn => k.pressed[0x24],
            Cmd::CineOff => k.pressed[0x23],
            Cmd::FadeOut => k.pressed[0x74],
            Cmd::FadeIn => k.pressed[0x75],
            Cmd::Slomo(v) => {
                ||| k.pressed[0xbc] && v == greater32(slower, 0x3d4c_cccd)
                ||| k.pressed[0xbe] && v == lesser32(faster, 0x4080_0000)
                ||| k.pressed[0xbf] && v == 0x3f80_0000
            },
            _ => false,
        }),
{
    let v0 = Seq::<Cmd>::empty();
    let v1 = when(shortcut(k, K_P), Cmd::Pause);
    assert(v0 + v1 =~= v1);
    lemma_when(v0, shortcut(k, K_P), Cmd::Pause, y);
    let v2 = v1 + when(shortcut(k, K_I), Cmd::ImguiInput);
    lemma_when(v1, shortcut(k, K_I), Cmd::ImguiInput, y);
    let v3 = v2 + when(shortcut(k, VK_HOME), Cmd::CineOn);
    lemma_when(v2, shortcut(k, VK_HOME), Cmd::CineOn, y);
    let v4 = v3 + when(shortcut(k, VK_END), Cmd::CineOff);
    lemma_when(v3, shortcut(k, VK_END), Cmd::CineOff, y);
    let v5 = v4 + when(shortcut(k, VK_F5), Cmd::FadeOut);
    lemma_when(v4, shortcut(k, VK_F5), Cmd::FadeOut, y);
    let v6 = v5 + when(shortcut(k, VK_F6), Cmd::FadeIn);
    lemma_when(v5, shortcut(k, VK_F6), Cmd::FadeIn, y);
    let slow = Cmd::Slomo(greater32(slower, SLOWEST));
    let v7 = v6 + when(shortcut(k, VK_OEM_COMMA), slow);
    lemma_when(v6, shortcut(k, VK_OEM_COMMA), slow, y);
    let fast = Cmd::Slomo(lesser32(faster, FASTEST));
    let v8 = v7 + when(shortcut(k, VK_OEM_PERIOD), fast);
    lemma_when(v7, shortcut(k, VK_OEM_PERIOD), fast, y);
    lemma_when(v8, shortcut(k, VK_OEM_2), Cmd::Slomo(ONE), y);
}

/// With Ctrl, L clears the path and stops the playing, K without L adds one keyframe, and J
/// starts or stops the playing from the start of the path, where there are two keyframes or
/// more. What starts the playing switches the free camera on. Nothing else changes the path.
pub proof fn law_keys_of_path(k: Keys, p: PathTime, kf: Seq<Kf>, c: CamData)
    ensures
        ({
            let chosen = k.down[0xa2] || k.down[0xa3];
            let n = hotkey_keyframes(k, kf, c);
            let r = hotkey_playing(k, p, kf, c);
            &&& chosen && k.pressed[0x4c] ==> n.len() == 0 && !r.0.playing
            &&& chosen && k.pressed[0x4b] && !k.pressed[0x4c] ==> n == captured(kf, c)
            &&& !chosen || (!k.pressed[0x4b] && !k.pressed[0x4c]) ==> n == kf
            &&& chosen && k.pressed[0x4a] && !k.pressed[0x4b] && !k.pressed[0x4c] ==> if kf.len()
                < 2 {
                r == (p, c)
            } else if p.playing {
                r == ((PathTime { playing: false, t: 0 }), c)
            } else {
                r == ((PathTime { playing: true, t: 0 }), (CamData { freecam: true, ..c }))
            }
            &&& !chosen || (!k.pressed[0x4a] && !k.pressed[0x4c]) ==> r == (p, c)
        }),
{
}

/// Insert switches the free camera, and where it comes on the game's point of view is taken
/// over. M with Ctrl switches mouse-look. The place and the view of the camera stay.
pub proof fn law_switches(k: Keys, c: CamData)
    ensures
        ({
            let n = switched(k, c);
            &&& n.freecam == (c.freecam != k.pressed[0x2d])
            &&& n.seed == (c.seed || (k.pressed[0x2d] && !c.freecam))
            &&& n.mouse == (c.mouse != ((k.down[0xa2] || k.down[0xa3]) && k.pressed[0x4d]))
            &&& n == (CamData { freecam: n.freecam, seed: n.seed, mouse: n.mouse, ..c })
        }),
{
}

/// The key of a letter has the code of the capital letter: the panel is under B, the taking over of
/// a unit under G. The shift keys are those at the left and at the right.
pub proof fn law_letter_keys()
    ensures
        K_A == 'A' as u8 && K_B == 'B' as u8 && K_C == 'C' as u8 && K_D == 'D' as u8,
        K_E == 'E' as u8 && K_G == 'G' as u8 && K_I == 'I' as u8 && K_J == 'J' as u8,
        K_K == 'K' as u8 && K_L == 'L' as u8 && K_M == 'M' as u8 && K_P == 'P' as u8,
        K_Q == 'Q' as u8 && K_S == 'S' as u8 && K_W == 'W' as u8 && K_X == 'X' as u8,
        K_Z == 'Z' as u8,
        VK_LSHIFT == 0xa0 && VK_RSHIFT == 0xa1,
{
}

} // verus!
