//! Camera paths: captured points of view, and their playback.

use vstd::prelude::*;

use crate::ieee::{is_nan64, less64, lesser64, lt64, nan64};
use crate::state::CamData;

verus! {

/// How many keyframes a path holds.
pub const MAX_KEYFRAMES: usize = 32;

/// Bit pattern of the double `1.0`.
pub const ONE64: u64 = 0x3ff0_0000_0000_0000;

/// Bit pattern of `8.0`: seconds from start to end.
pub const DURATION: u32 = 0x4100_0000;

/// A captured point of view, as bit patterns.
#[derive(Clone, Copy, Debug, PartialEq, Eq, Structural)]
pub struct Kf {
    pub x: u64,
    pub y: u64,
    pub z: u64,
    pub pitch: u64,
    pub yaw: u64,
    pub roll: u64,
    pub fov: u32,
}

/// The keyframes and the playhead, which runs from 0 to 1.
pub struct Path {
    pub kf: Vec<Kf>,
    pub playing: bool,
    pub t: u64,
    pub dur: u32,
}

impl Path {
    /// A path never holds more keyframes than it can, and only one with two can play.
    pub open spec fn wf(&self) -> bool {
        self.kf@.len() <= MAX_KEYFRAMES && (self.playing ==> self.kf@.len() >= 2)
    }

    /// No keyframes.
    pub fn new() -> (r: Path)
        ensures
            r.wf(),
            r.kf@ == Seq::<Kf>::empty(),
            !r.playing,
            r.t == 0,
            r.dur == DURATION,
    {
        Path { kf: Vec::new(), playing: false, t: 0, dur: DURATION }
    }
}

/// The point of view of the camera as a keyframe.
pub open spec fn keyframe(c: CamData) -> Kf {
    Kf { x: c.x, y: c.y, z: c.z, pitch: c.pitch, yaw: c.yaw, roll: c.roll, fov: c.fov }
}

/// Number of keyframes.
pub fn count(p: &Path) -> (r: usize)
    ensures
        r == p.kf@.len(),
{
    p.kf.len()
}

/// Number of keyframes, playhead, and whether it plays.
pub fn timeline(p: &Path) -> (r: (usize, u64, bool))
    ensures
        r == (p.kf@.len() as usize, p.t, p.playing),
{
    (p.kf.len(), p.t, p.playing)
}

/// The keyframes, in the order in which they were captured.
pub fn keyframes(p: &Path) -> (r: Vec<Kf>)
    ensures
        r@ == p.kf@,
{
    let mut out: Vec<Kf> = Vec::new();
    let mut i: usize = 0;
    while i < p.kf.len()
        invariant
            i <= p.kf.len(),
            out@ == p.kf@.take(i as int),
        decreases p.kf.len() - i,
    {
        out.push(p.kf[i]);
        assert(out@ =~= p.kf@.take(i + 1));
        i += 1;
    }
    assert(p.kf@.take(p.kf.len() as int) =~= p.kf@);
    out
}

/// The keyframes after a capture: a full path takes no more.
pub open spec fn captured(kf: Seq<Kf>, c: CamData) -> Seq<Kf> {
    if kf.len() < MAX_KEYFRAMES {
        kf.push(keyframe(c))
    } else {
        kf
    }
}

/// Capture the camera's point of view as a keyframe. Returns the number of keyframes, or `None`
/// if the path is full.
pub fn add(p: &mut Path, c: &CamData) -> (r: Option<usize>)
    requires
        old(p).wf(),
    ensures
        final(p).wf(),
        final(p).kf@ == captured(old(p).kf@, *c),
        final(p).playing == old(p).playing,
        final(p).t == old(p).t,
        final(p).dur == old(p).dur,
        r == if old(p).kf@.len() < MAX_KEYFRAMES {
            Some((old(p).kf@.len() + 1) as usize)
        } else {
            None
        },
{
    if p.kf.len() >= MAX_KEYFRAMES {
        return None;
    }
    p.kf.push(
        Kf { x: c.x, y: c.y, z: c.z, pitch: c.pitch, yaw: c.yaw, roll: c.roll, fov: c.fov },
    );
    Some(p.kf.len())
}

/// Drop all keyframes and stop.
pub fn clear(p: &mut Path)
    ensures
        final(p).wf(),
        final(p).kf@ == Seq::<Kf>::empty(),
        !final(p).playing,
        final(p).t == old(p).t,
        final(p).dur == old(p).dur,
{
    p.kf = Vec::new();
    p.playing = false;
}

/// Start or stop playback, from the beginning. A path of fewer than two keyframes does not play.
/// A start switches the free camera on, which playback moves. Returns whether it plays, or
/// `None` if there are too few keyframes.
pub fn toggle_play(p: &mut Path, c: &mut CamData) -> (r: Option<bool>)
    requires
        old(p).wf(),
    ensures
        final(p).wf(),
        final(p).kf@ == old(p).kf@,
        final(p).dur == old(p).dur,
        ({
            let short = old(p).kf@.len() < 2;
            &&& r == if short {
                None
            } else {
                Some(!old(p).playing)
            }
            &&& final(p).playing == if short {
                old(p).playing
            } else {
                !old(p).playing
            }
            &&& final(p).t == if short {
                old(p).t
            } else {
                0
            }
            &&& *final(c) == if !short && !old(p).playing {
                CamData { freecam: true, ..*old(c) }
            } else {
                *old(c)
            }
        }),
{
    if p.kf.len() < 2 {
        return None;
    }
    p.playing = !p.playing;
    p.t = 0;
    if p.playing {
        c.freecam = true;
    }
    Some(p.playing)
}

/// The playhead has reached the end.
pub open spec fn at_end(t: u64) -> bool {
    !nan64(t) && !less64(t, ONE64)
}

/// The playhead, and whether it plays on, after a tick that takes it from `t` to `next`.
pub open spec fn advanced(playing: bool, t: u64, next: u64) -> (u64, bool) {
    if !playing {
        (t, false)
    } else if at_end(next) {
        (ONE64, false)
    } else {
        (next, true)
    }
}

/// Move the playhead to `next`, which is it plus one tick. At the end it stays there and
/// playback stops. Returns whether playback is over, or `None` if nothing plays.
pub fn update(p: &mut Path, next: u64) -> (r: Option<bool>)
    requires
        old(p).wf(),
    ensures
        final(p).wf(),
        final(p).kf@ == old(p).kf@,
        final(p).dur == old(p).dur,
        r == if old(p).playing {
            Some(at_end(next))
        } else {
            None
        },
        (final(p).t, final(p).playing) == advanced(old(p).playing, old(p).t, next),
{
    if !p.playing || p.kf.len() < 2 {
        return None;
    }
    p.t = next;
    if !is_nan64(p.t) && !lt64(p.t, ONE64) {
        p.t = ONE64;
        p.playing = false;
    }
    Some(!p.playing)
}

/// Position `i` held within a list of `n`.
pub open spec fn held_index(i: int, n: int) -> int {
    if i < 0 {
        0
    } else if i >= n {
        n - 1
    } else {
        i
    }
}

/// Keyframe `j` of the four that segment `i` runs by: the one before the segment, its two ends,
/// and the one behind it.
pub open spec fn segment_key(kf: Seq<Kf>, i: int, j: int) -> Kf {
    kf[held_index(i - 1 + j, kf.len() as int)]
}

/// The segment of a path of `n` keyframes, by the playhead times the number of segments rounded
/// down: behind the last segment is still the last one.
pub open spec fn segment_index(raw: int, n: int) -> int {
    if raw <= n - 2 {
        raw
    } else {
        n - 2
    }
}

/// The four keyframes that the spline runs by, and the segment it is in.
pub struct Segment {
    pub index: usize,
    pub k: [Kf; 4],
}

/// The segment that the playhead is in. `raw` is the playhead times the number of segments,
/// rounded down. The keyframe before the first is the first, the one behind the last is the
/// last.
pub fn segment(p: &Path, raw: usize) -> (r: Option<Segment>)
    requires
        p.wf(),
    ensures
        r is None <==> p.kf@.len() < 2,
        r matches Some(s) ==> {
            let n = p.kf@.len() as int;
            let i = segment_index(raw as int, n);
            &&& s.index == i
            &&& forall|j: int| 0 <= j < 4 ==> #[trigger] s.k[j] == segment_key(p.kf@, i, j)
        },
{
    let n = p.kf.len();
    if n < 2 {
        return None;
    }
    let i: usize = if raw <= n - 2 {
        raw
    } else {
        n - 2
    };
    let before: usize = if i == 0 {
        0
    } else {
        i - 1
    };
    let behind: usize = if i + 2 < n {
        i + 2
    } else {
        n - 1
    };
    Some(Segment { index: i, k: [p.kf[before], p.kf[i], p.kf[i + 1], p.kf[behind]] })
}

/// The camera with the point of view of a keyframe.
pub open spec fn shown(c: CamData, k: Kf) -> CamData {
    CamData {
        x: k.x,
        y: k.y,
        z: k.z,
        pitch: k.pitch,
        yaw: k.yaw,
        roll: k.roll,
        fov: k.fov,
        ..c
    }
}

/// Write an interpolated point of view into the camera.
pub fn show(c: &mut CamData, k: &Kf)
    ensures
        *final(c) == shown(*old(c), *k),
{
    c.x = k.x;
    c.y = k.y;
    c.z = k.z;
    c.pitch = k.pitch;
    c.yaw = k.yaw;
    c.roll = k.roll;
    c.fov = k.fov;
}

/// A path keeps the first 32 points of view and takes no more, however many are captured.
pub proof fn law_path_keeps_first(kf: Seq<Kf>, views: Seq<CamData>)
    requires
        kf.len() <= 32,
    ensures
        ({
            let all = kf + views.map_values(|c: CamData| keyframe(c));
            views.fold_left(kf, |k: Seq<Kf>, c: CamData| captured(k, c)) == if all.len()
                <= 32 {
                all
            } else {
                all.take(32)
            }
        }),
    decreases views.len(),
{
    let f = |k: Seq<Kf>, c: CamData| captured(k, c);
    let g = |c: CamData| keyframe(c);
    let all = kf + views.map_values(g);
    if views.len() > 0 {
        let init = views.drop_last();
        law_path_keeps_first(kf, init);
        let some = kf + init.map_values(g);
        assert(views.map_values(g) =~= init.map_values(g).push(keyframe(views.last())));
        assert(all =~= some.push(keyframe(views.last())));
        if some.len() < MAX_KEYFRAMES {
        } else {
            assert(all.take(MAX_KEYFRAMES as int) =~= some.take(MAX_KEYFRAMES as int));
            if some.len() == MAX_KEYFRAMES {
                assert(some.take(MAX_KEYFRAMES as int) =~= some);
            }
        }
    } else {
        assert(all =~= kf);
    }
}

/// The segments of a path join: segment `i` runs from keyframe `i` to the next one, and the
/// keyframes that the following segment runs by are the same, moved on by one.
pub proof fn law_segments_meet(kf: Seq<Kf>, i: int, j: int)
    requires
        0 <= i <= kf.len() - 2,
        0 <= j < 3,
    ensures
        segment_key(kf, i, 1) == kf[i],
        segment_key(kf, i, 2) == kf[i + 1],
        segment_key(kf, i, j + 1) == segment_key(kf, i + 1, j),
{
}

/// A tick of playback takes the playhead to the lesser of `next` and the end, and playback goes on
/// as long as the end is not reached; what does not play stays where it is. A playhead between
/// start and end that does not go back stays between them.
pub proof fn law_playhead_stays_within(playing: bool, t: u64, next: u64)
    requires
        !nan64(t),
        !nan64(next),
        !less64(t, 0),
        !less64(0x3ff0_0000_0000_0000, t),
        !less64(next, t),
    ensures
        ({
            let (t1, on) = advanced(playing, t, next);
            &&& !less64(t1, 0)
            &&& !less64(0x3ff0_0000_0000_0000, t1)
            &&& playing ==> t1 == lesser64(next, 0x3ff0_0000_0000_0000) && on == less64(t1, 0x3ff0_0000_0000_0000)
            &&& !playing ==> t1 == t && !on
        }),
{
}

/// A path of `n` keyframes has one segment fewer. Each is reached, in order, and the end of the
/// path lies in the last.
pub proof fn law_segments_in_order(raw: int, n: int)
    requires
        n >= 2,
        0 <= raw,
    ensures
        0 <= segment_index(raw, n) < n - 1,
        raw < n - 1 ==> segment_index(raw, n) == raw,
        segment_index(n - 1, n) + 1 == n - 1,
        segment_index(raw, n) <= segment_index(raw + 1, n),
{
}

/// A keyframe holds the place, the view and the field of view that the camera has, each as it
/// is.
pub proof fn law_keyframe_is_view(c: CamData)
    ensures
        keyframe(c).x == c.x,
        keyframe(c).y == c.y,
        keyframe(c).z == c.z,
        keyframe(c).pitch == c.pitch,
        keyframe(c).yaw == c.yaw,
        keyframe(c).roll == c.roll,
        keyframe(c).fov == c.fov,
{
}

/// The first segment has its own start before it, and the last its own end behind it.
pub proof fn law_ends_stand_in(kf: Seq<Kf>)
    requires
        kf.len() >= 2,
    ensures
        segment_key(kf, 0, 0) == kf[0],
        segment_key(kf, kf.len() - 2, 3) == kf[kf.len() - 1],
{
}

/// Playback sets the camera's point of view and nothing else of it: the switches, the lock of the
/// field of view and the rest are as they were.
pub proof fn law_playback_sets_view(c: CamData, k: Kf)
    ensures
        keyframe(shown(c, k)) == k,
        shown(c, k).freecam == c.freecam,
        shown(c, k).seed == c.seed,
        shown(c, k).mouse == c.mouse,
        shown(c, k).fov_locked == c.fov_locked,
{
}

} // verus!
