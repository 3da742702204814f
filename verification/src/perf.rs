//! The engine's frame rate, for the graph.

use vstd::prelude::*;

use crate::ieee::{at_most32, finite32, is_finite32, le32, less32};
use crate::memory::{Bytes, Memory, off, u32_at};
use crate::offsets::GAVERAGEFPS;

verus! {

/// How many samples are kept.
pub const SAMPLES: usize = 120;

/// Bit pattern of `100000.0`, the greatest plausible rate.
pub const MAX_FPS: u32 = 0x47c3_5000;

/// The last samples, in a ring. `head` is where the next one goes.
#[derive(Clone, Copy)]
pub struct Ring {
    pub cur: u32,
    pub ring: [u32; 120],
    pub head: usize,
    pub filled: usize,
}

impl View for Ring {
    type V = Seq<u32>;

    /// The samples, oldest first.
    open spec fn view(&self) -> Seq<u32> {
        Seq::new(self.filled as nat, |i: int| self.ring[self.slot(i)])
    }
}

impl Ring {
    /// The place of the sample that is the `i`th from the oldest.
    pub open spec fn slot(&self, i: int) -> int {
        if self.filled < SAMPLES {
            i
        } else if self.head + i < SAMPLES {
            self.head + i
        } else {
            self.head + i - SAMPLES
        }
    }

    /// The ring fills up from its start before it goes round.
    pub open spec fn wf(&self) -> bool {
        &&& self.head < SAMPLES
        &&& self.filled <= SAMPLES
        &&& self.filled < SAMPLES ==> self.head == self.filled
    }

    /// No samples, and zero in every place.
    pub fn new() -> (r: Ring)
        ensures
            r.wf(),
            r@ == Seq::<u32>::empty(),
            r.cur == 0,
            forall|i: int| 0 <= i < SAMPLES ==> r.ring[i] == 0,
    {
        let r = Ring { cur: 0, ring: [0;120], head: 0, filled: 0 };
        assert(r@ =~= Seq::<u32>::empty());
        r
    }
}

/// The samples after one more: the oldest of a full ring goes.
pub open spec fn sampled(s: Seq<u32>, v: u32) -> Seq<u32> {
    if s.len() < SAMPLES {
        s.push(v)
    } else {
        s.skip(1).push(v)
    }
}

/// The engine's frame rate, where it is plausible.
pub open spec fn plausible_rate(m: Bytes, base: u64) -> Option<u32> {
    if base == 0 {
        None
    } else {
        match u32_at(m, off(base, GAVERAGEFPS)) {
            None => None,
            Some(fps) => if finite32(fps) && at_most32(0, fps) && at_most32(fps, MAX_FPS) {
                Some(fps)
            } else {
                None
            },
        }
    }
}

/// Sample the engine's frame rate, once per frame. An implausible rate is left out.
pub fn tick(r: &mut Ring, m: &mut Memory, base: u64)
    requires
        old(r).wf(),
    ensures
        final(r).wf(),
        match plausible_rate(old(m)@, base) {
            None => *final(r) == *old(r),
            Some(fps) => final(r)@ == sampled(old(r)@, fps) && final(r).cur == fps,
        },
        final(m)@ == old(m)@,
{
    if base == 0 {
        return;
    }
    if let Some(fps) = m.read_u32(base.wrapping_add(GAVERAGEFPS)) {
        if is_finite32(fps) && le32(0, fps) && le32(fps, MAX_FPS) {
            let ghost r0 = *r;
            r.cur = fps;
            let h = r.head;
            let mut a = r.ring;
            a[h] = fps;
            r.ring = a;
            r.head = if h + 1 == SAMPLES {
                0
            } else {
                h + 1
            };
            if r.filled < SAMPLES {
                r.filled = r.filled + 1;
            }
            assert(r@ =~= sampled(r0@, fps));
        }
    }
}

/// The last sample.
pub fn current(r: &Ring) -> (out: u32)
    ensures
        out == r.cur,
{
    r.cur
}

/// The samples, oldest first.
pub fn samples(r: &Ring) -> (out: Vec<u32>)
    requires
        r.wf(),
    ensures
        out@ == r@,
{
    let mut out: Vec<u32> = Vec::new();
    let mut i: usize = 0;
    while i < r.filled
        invariant
            i <= r.filled,
            r.wf(),
            out@ == r@.take(i as int),
        decreases r.filled - i,
    {
        let at: usize = if r.filled < SAMPLES {
            i
        } else if r.head + i < SAMPLES {
            r.head + i
        } else {
            r.head + i - SAMPLES
        };
        out.push(r.ring[at]);
        assert(out@ =~= r@.take(i + 1));
        i += 1;
    }
    assert(r@.take(r.filled as int) =~= r@);
    out
}

/// The ring holds the newest samples: after any row of them, the last 120, in order.
pub proof fn law_ring_keeps_newest(s: Seq<u32>, more: Seq<u32>)
    requires
        s.len() <= SAMPLES,
    ensures
        ({
            let all = s + more;
            let kept = more.fold_left(s, |x: Seq<u32>, v: u32| sampled(x, v));
            kept == if all.len() <= SAMPLES {
                all
            } else {
                all.skip(all.len() - SAMPLES)
            }
        }),
    decreases more.len(),
{
    let all = s + more;
    if more.len() > 0 {
        let init = more.drop_last();
        law_ring_keeps_newest(s, init);
        let some = s + init;
        assert(all =~= some.push(more.last()));
        if some.len() >= SAMPLES {
            if some.len() == SAMPLES {
                assert(some.skip(0) =~= some);
            }
            assert(all.skip(all.len() - SAMPLES) =~= some.skip(some.len() - SAMPLES).skip(1).push(
                more.last(),
            ));
        }
    } else {
        assert(all =~= s);
    }
}

/// A rate is taken where it is a number from 0 to 100000, at its place in the game's data; the ring
/// keeps the last 120.
pub proof fn law_rates_taken(m: Bytes, base: u64, fps: u32, s: Seq<u32>)
    requires
        base != 0,
        u32_at(m, off(base, 0x0d55_0f94)) == Some(fps),
        s.len() <= 120,
    ensures
        finite32(fps) && at_most32(0, fps) && at_most32(fps, 0x47c3_5000) ==> plausible_rate(m, base)
            == Some(fps),
        !finite32(fps) || less32(fps, 0) || less32(0x47c3_5000, fps) ==> plausible_rate(m, base)
            is None,
        sampled(s, fps).last() == fps,
        s.len() < 120 ==> sampled(s, fps).drop_last() == s,
        s.len() == 120 ==> sampled(s, fps).drop_last() == s.skip(1),
        plausible_rate(m, 0) is None,
{
    assert(s.len() < 120 ==> sampled(s, fps).drop_last() =~= s);
    assert(s.len() == 120 ==> sampled(s, fps).drop_last() =~= s.skip(1));
}

} // verus!
