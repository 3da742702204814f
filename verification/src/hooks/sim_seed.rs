//! The detour of the streaming-seed builder.
//!
//! The simulation decides which clusters are active from a mask that the seed builder fills.
//! The detour lets the builder run and then adds the clusters that were published for it. The
//! builder's first bytes are replaced by a jump; they live on in the trampoline, which jumps
//! back behind them.

use vstd::prelude::*;

use crate::bytes::{le64, push_u64};
use crate::memory::{
    Bytes, Memory, apart, bytes_at, dist, elem, elem_addr, inside, lemma_put_bytes,
    lemma_put_bytes_apart, lemma_put_bytes_read, off, put32, put_bytes, u8_at, u32_at,
};
use crate::simtime::objects::NO_HANDLE;
use crate::simtime::unit::{collect_nearby_clusters, nearby_clusters, packed_cluster};

verus! {

pub const SEED_BUILDER_RVA: u64 = 0x0020_ac90;

/// How many bytes of the builder are replaced: whole instructions, none of them relative.
pub const STEAL: usize = 15;

/// How many clusters can be published.
pub const MAX_SEEDS: usize = 32;

/// The mark of a published cluster.
pub const SEED_SET: u32 = 0x8000_0000;

/// Size of the mask in bytes.
pub const MASK_BYTES: u32 = 0x400;

/// The radius, in world units, around the possessed unit within which clusters are published.
pub const SEED_REFRESH_RADIUS: u32 = 50;

/// How many requests there are to one search for clusters.
pub const SEED_EVERY: u32 = 16;

/// Size of the memory that the trampoline is built in.
pub const TRAMPOLINE_BYTES: u32 = 64;

/// The state of the detour.
#[derive(Clone, Copy)]
pub struct SeedHook {
    /// Address of the builder, once installed.
    pub target: u64,
    /// Address of the trampoline, once built. It is never freed.
    pub trampoline: u64,
    pub installed: bool,
    /// Whether the detour adds clusters.
    pub on: bool,
    /// How often the detour has run.
    pub fires: u64,
    /// The published clusters, 0 where there is none.
    pub clusters: [u32; 32],
    pub tick: u32,
    /// Whether clusters are published at all.
    pub widen: bool,
}

impl SeedHook {
    /// Not installed, switched on, with nothing to publish.
    pub fn new() -> (r: SeedHook)
        ensures
            r.target == 0,
            r.trampoline == 0,
            !r.installed,
            r.on,
            r.fires == 0,
            forall|i: int| 0 <= i < 32 ==> r.clusters[i] == 0,
            r.tick == 0,
            !r.widen,
    {
        SeedHook {
            target: 0,
            trampoline: 0,
            installed: false,
            on: true,
            fires: 0,
            clusters: [0;32],
            tick: 0,
            widen: false,
        }
    }
}

/// All but the published clusters is the same.
pub open spec fn same_but_clusters(a: SeedHook, b: SeedHook) -> bool {
    a == (SeedHook { clusters: a.clusters, ..b })
}

/// Entry `i` of a list of clusters: 0 behind its end.
pub open spec fn nth_cluster(v: Seq<u32>, i: int) -> u32 {
    if i < v.len() {
        v[i]
    } else {
        0
    }
}

fn publish(s: &mut SeedHook, list: &Vec<u32>)
    ensures
        same_but_clusters(*final(s), *old(s)),
        forall|i: int| 0 <= i < 32 ==> #[trigger] final(s).clusters[i] == nth_cluster(list@, i),
{
    let mut i: usize = 0;
    while i < MAX_SEEDS
        invariant
            i <= MAX_SEEDS,
            same_but_clusters(*s, *old(s)),
            forall|k: int| 0 <= k < i ==> s.clusters[k] == nth_cluster(list@, k),
        decreases MAX_SEEDS - i,
    {
        let v = if i < list.len() {
            list[i]
        } else {
            0
        };
        let mut c = s.clusters;
        c[i] = v;
        s.clusters = c;
        i += 1;
    }
}

/// Whether a request publishes nothing: no unit, or publishing is switched off.
pub open spec fn seed_cleared(s: SeedHook, unit_handle: u32) -> bool {
    unit_handle == NO_HANDLE || !s.widen
}

/// Whether a request searches for clusters.
pub open spec fn seed_due(s: SeedHook, unit_handle: u32) -> bool {
    !seed_cleared(s, unit_handle) && s.tick % 16 == 0
}

/// What a request leaves: only the published clusters and the count of requests change.
pub open spec fn seed_updated(
    before: SeedHook,
    after: SeedHook,
    m: Bytes,
    tls: u64,
    unit_handle: u32,
    near: Seq<bool>,
) -> bool {
    &&& after == (SeedHook {
        clusters: after.clusters,
        tick: if seed_cleared(before, unit_handle) {
            before.tick
        } else if before.tick == u32::MAX {
            0
        } else {
            (before.tick + 1) as u32
        },
        ..before
    })
    &&& forall|i: int|
        0 <= i < 32 ==> #[trigger] after.clusters[i] == if seed_cleared(before, unit_handle) {
            0
        } else if seed_due(before, unit_handle) {
            nth_cluster(nearby_clusters(m, tls, unit_handle, near, 32), i)
        } else {
            before.clusters[i]
        }
}

/// Publish the clusters around the possessed unit for the detour. With publishing switched off,
/// or without a unit, nothing is published. Otherwise every 16th request publishes anew, and the
/// requests in between keep what is published. `near` says by record index which units are
/// within [`SEED_REFRESH_RADIUS`].
pub fn update_seed(
    s: &mut SeedHook,
    m: &mut Memory,
    tls: u64,
    unit_handle: u32,
    near: &Vec<bool>,
)
    ensures
        seed_updated(*old(s), *final(s), old(m)@, tls, unit_handle, near@),
        final(m)@ == old(m)@,
{
    if unit_handle == NO_HANDLE || !s.widen {
        let none: Vec<u32> = Vec::new();
        publish(s, &none);
        return;
    }
    let tick = s.tick;
    s.tick = tick.wrapping_add(1);
    if tick % SEED_EVERY != 0 {
        return;
    }
    let list = collect_nearby_clusters(m, tls, unit_handle, near, MAX_SEEDS);
    publish(s, &list);
}

/// Switch publishing on or off.
pub fn set_widen(s: &mut SeedHook, on: bool)
    ensures
        *final(s) == (SeedHook { widen: on, ..*old(s) }),
{
    s.widen = on;
}

/// Whether clusters are published.
pub fn widen(s: &SeedHook) -> (r: bool)
    ensures
        r == s.widen,
{
    s.widen
}

/// Switch the detour's work on or off.
pub fn set_enabled(s: &mut SeedHook, on: bool)
    ensures
        *final(s) == (SeedHook { on, ..*old(s) }),
{
    s.on = on;
}

/// Whether the detour adds clusters.
pub fn enabled(s: &SeedHook) -> (r: bool)
    ensures
        r == s.on,
{
    s.on
}

/// How often the detour has run.
pub fn fires(s: &SeedHook) -> (r: u64)
    ensures
        r == s.fires,
{
    s.fires
}

/// How many of the clusters `0..n` are set.
pub open spec fn set_count(c: [u32; 32], n: nat) -> nat
    decreases n,
{
    if n == 0 {
        0
    } else {
        set_count(c, (n - 1) as nat) + if c[n - 1] >= SEED_SET {
            1nat
        } else {
            0
        }
    }
}

/// How many clusters are published.
pub fn seed_count(s: &SeedHook) -> (r: usize)
    ensures
        r == set_count(s.clusters, 32),
{
    let mut n: usize = 0;
    let mut i: usize = 0;
    while i < MAX_SEEDS
        invariant
            i <= MAX_SEEDS,
            n <= i,
            n == set_count(s.clusters, i as nat),
        decreases MAX_SEEDS - i,
    {
        if s.clusters[i] >= SEED_SET {
            n += 1;
        }
        i += 1;
    }
    n
}

/// Whether the detour is installed.
pub fn installed(s: &SeedHook) -> (r: bool)
    ensures
        r == s.installed,
{
    s.installed
}

/// The word of the mask that holds the bit of a packed cluster.
pub open spec fn mask_index(packed: u32) -> int {
    (packed / 0x100 % 0x100) * 8 + packed % 0x100 / 32
}

/// The bit of a packed cluster within its word.
pub open spec fn mask_bit(packed: u32) -> u32 {
    1u32 << (packed % 32)
}

/// Memory after the clusters `i..` are added to the mask. A cluster that is not set, or whose
/// word lies behind the mask, is passed over; a fault ends the row.
pub open spec fn seeded(m: Bytes, mask: u64, c: [u32; 32], i: int) -> Bytes
    decreases 32 - i,
{
    if i >= 32 {
        m
    } else {
        let packed = c[i];
        if packed < SEED_SET || mask_index(packed) * 4 + 4 > MASK_BYTES {
            seeded(m, mask, c, i + 1)
        } else {
            let a = elem(mask, mask_index(packed), 4);
            match u32_at(m, a) {
                None => m,
                Some(w) => seeded(put32(m, a, w | mask_bit(packed)), mask, c, i + 1),
            }
        }
    }
}

/// The detour's own work, once the builder has filled the mask at `dst_mask`: count the run, and
/// add the published clusters unless switched off.
pub fn relay(s: &mut SeedHook, m: &mut Memory, dst_mask: u64)
    ensures
        *final(s) == (SeedHook { fires: off(old(s).fires, 1), ..*old(s) }),
        final(m)@ == if old(s).on {
            seeded(old(m)@, dst_mask, old(s).clusters, 0)
        } else {
            old(m)@
        },
{
    s.fires = s.fires.wrapping_add(1);
    if !s.on {
        return;
    }
    let mut i: usize = 0;
    let ghost m0 = m@;
    let ghost s0 = *s;
    while i < MAX_SEEDS
        invariant
            i <= MAX_SEEDS,
            *s == s0,
            s0 == (SeedHook { fires: off(old(s).fires, 1), ..*old(s) }),
            s0.on,
            m0 == old(m)@,
            seeded(m0, dst_mask, s0.clusters, 0) == seeded(m@, dst_mask, s0.clusters, i as int),
        decreases MAX_SEEDS - i,
    {
        let packed = s.clusters[i];
        if packed >= SEED_SET {
            let idx: u32 = (packed / 0x100 % 0x100) * 8 + packed % 0x100 / 32;
            if idx * 4 + 4 <= MASK_BYTES {
                let a = elem_addr(dst_mask, idx as u64, 4);
                match m.read_u32(a) {
                    None => return,
                    Some(w) => {
                        m.write_u32(a, w | (1u32 << (packed % 32)));
                    },
                }
            }
        }
        i += 1;
    }
}

/// The detour changes nothing outside the mask.
pub proof fn law_relay_frame(m: Bytes, mask: u64, c: [u32; 32], i: int, x: u64)
    requires
        0 <= i,
        !crate::memory::inside(x, mask, MASK_BYTES as int),
    ensures
        crate::memory::u8_at(seeded(m, mask, c, i), x) == crate::memory::u8_at(m, x),
    decreases 32 - i,
{
    if i < 32 {
        let packed = c[i];
        let a = elem(mask, mask_index(packed), 4);
        if packed < SEED_SET || mask_index(packed) * 4 + 4 > MASK_BYTES {
            law_relay_frame(m, mask, c, i + 1, x);
        } else if let Some(w) = u32_at(m, a) {
            let m1 = put32(m, a, w | mask_bit(packed));
            crate::memory::lemma_put32_frame(m, a, w | mask_bit(packed));
            lemma_word_inside(mask, mask_index(packed), x);
            law_relay_frame(m1, mask, c, i + 1, x);
        }
    }
}

proof fn lemma_word_inside(mask: u64, k: int, x: u64)
    requires
        0 <= k,
        k * 4 + 4 <= MASK_BYTES,
        !crate::memory::inside(x, mask, MASK_BYTES as int),
    ensures
        !crate::memory::inside(x, elem(mask, k, 4), 4),
{
}

/// The detour only sets bits: a bit of the mask that was set stays set.
pub proof fn law_relay_keeps_bits(m: Bytes, mask: u64, c: [u32; 32], i: int, k: int, bits: u32)
    requires
        0 <= i,
        0 <= k,
        k * 4 + 4 <= MASK_BYTES,
        u32_at(m, elem(mask, k, 4)) is Some,
        (u32_at(m, elem(mask, k, 4))->0) & bits == bits,
    ensures
        u32_at(seeded(m, mask, c, i), elem(mask, k, 4)) is Some,
        (u32_at(seeded(m, mask, c, i), elem(mask, k, 4))->0) & bits == bits,
    decreases 32 - i,
{
    if i < 32 {
        let packed = c[i];
        let j = mask_index(packed);
        let a = elem(mask, j, 4);
        let b = elem(mask, k, 4);
        if packed < SEED_SET || j * 4 + 4 > MASK_BYTES {
            law_relay_keeps_bits(m, mask, c, i + 1, k, bits);
        } else if let Some(w) = u32_at(m, a) {
            let v = w | mask_bit(packed);
            let m1 = put32(m, a, v);
            crate::memory::lemma_put32_frame(m, a, v);
            if j == k {
                let mb = mask_bit(packed);
                assert(w & bits == bits ==> (w | mb) & bits == bits) by (bit_vector);
            } else {
                lemma_words_apart(mask, j, k);
                crate::memory::lemma_apart(b, 4, a, 4);
                crate::memory::lemma_agree32(m, m1, b);
            }
            law_relay_keeps_bits(m1, mask, c, i + 1, k, bits);
        }
    }
}

proof fn lemma_words_apart(mask: u64, j: int, k: int)
    requires
        0 <= j,
        0 <= k,
        j != k,
        j * 4 + 4 <= MASK_BYTES,
        k * 4 + 4 <= MASK_BYTES,
    ensures
        apart(elem(mask, k, 4), 4, elem(mask, j, 4), 4),
{
}

/// An absolute jump to `to`: fourteen bytes, the last eight of them the address.
pub open spec fn jump_bytes(to: u64) -> Seq<u8> {
    seq![0xffu8, 0x25, 0, 0, 0, 0] + le64(to)
}

fn push_jump(out: &mut Vec<u8>, to: u64)
    ensures
        final(out)@ == old(out)@ + jump_bytes(to),
{
    out.push(0xff);
    out.push(0x25);
    out.push(0);
    out.push(0);
    out.push(0);
    out.push(0);
    push_u64(out, to);
    assert(out@ =~= old(out)@ + jump_bytes(to));
}

/// The bytes that replace the builder's first ones: a jump to the detour, filled up with a
/// no-op.
pub open spec fn patch_bytes(relay: u64) -> Seq<u8> {
    jump_bytes(relay).push(0x90)
}

/// The trampoline: the replaced bytes, and a jump to what follows them.
pub open spec fn trampoline_bytes(stolen: Seq<u8>, target: u64) -> Seq<u8> {
    stolen + jump_bytes(off(target, STEAL as u64))
}

/// The first eight bytes that the builder must have.
pub open spec fn expected_prologue() -> Seq<u8> {
    seq![0x40u8, 0x53, 0x56, 0x57, 0x41, 0x56, 0x41, 0x57]
}

/// What came of an attempt to install the detour.
#[derive(Clone, Copy, PartialEq, Eq, Structural)]
pub enum Install {
    /// It was installed before.
    Already,
    /// The simulation module is not loaded.
    NoModule,
    /// The builder does not look as expected: nothing is touched.
    Mismatch { target: u64 },
    /// There is no trampoline.
    NoTrampoline,
    /// It is installed.
    Done { target: u64 },
}

/// What an attempt to install comes to, memory after it, and the trampoline after it. `fresh` is
/// memory for a trampoline, 0 if there is none.
pub open spec fn install_outcome(s: SeedHook, m: Bytes, sim_base: u64, fresh: u64, relay: u64) -> (
    Install,
    Bytes,
    u64,
) {
    let target = off(sim_base, SEED_BUILDER_RVA);
    if s.installed {
        (Install::Already, m, s.trampoline)
    } else if sim_base == 0 {
        (Install::NoModule, m, s.trampoline)
    } else if bytes_at(m, target, 8) != Some(expected_prologue()) {
        (Install::Mismatch { target }, m, s.trampoline)
    } else if s.trampoline != 0 {
        (Install::Done { target }, patched(m, target, relay), s.trampoline)
    } else {
        match bytes_at(m, target, STEAL as nat) {
            None => (Install::NoTrampoline, m, 0),
            Some(stolen) => if fresh == 0 || bytes_at(m, fresh, 29) is None {
                (Install::NoTrampoline, m, 0)
            } else {
                let m1 = put_bytes(m, fresh, trampoline_bytes(stolen, target));
                (Install::Done { target }, patched(m1, target, relay), fresh)
            },
        }
    }
}

/// Memory after the builder is patched, which a fault leaves as it is.
pub open spec fn patched(m: Bytes, target: u64, relay: u64) -> Bytes {
    if bytes_at(m, target, STEAL as nat) is Some {
        put_bytes(m, target, patch_bytes(relay))
    } else {
        m
    }
}

fn has_prologue(m: &mut Memory, target: u64) -> (r: bool)
    ensures
        r == (bytes_at(old(m)@, target, 8) == Some(expected_prologue())),
        final(m)@ == old(m)@,
{
    match m.read_bytes(target, 8) {
        None => false,
        Some(b) => {
            let ok = b[0] == 0x40 && b[1] == 0x53 && b[2] == 0x56 && b[3] == 0x57 && b[4] == 0x41
                && b[5] == 0x56 && b[6] == 0x41 && b[7] == 0x57;
            proof {
                if ok {
                    assert(b@ =~= expected_prologue());
                } else {
                    assert(expected_prologue()[0] == 0x40);
                }
            }
            ok
        },
    }
}

fn build_trampoline(m: &mut Memory, target: u64, fresh: u64) -> (r: bool)
    ensures
        match bytes_at(old(m)@, target, STEAL as nat) {
            None => !r && final(m)@ == old(m)@,
            Some(stolen) => {
                &&& r == (fresh != 0 && bytes_at(old(m)@, fresh, 29) is Some)
                &&& final(m)@ == if r {
                    put_bytes(old(m)@, fresh, trampoline_bytes(stolen, target))
                } else {
                    old(m)@
                }
            },
        },
{
    match m.read_bytes(target, STEAL) {
        None => false,
        Some(stolen) => if fresh == 0 {
            false
        } else {
            let ghost st = stolen@;
            let mut code = stolen;
            push_jump(&mut code, target.wrapping_add(STEAL as u64));
            assert(code@ == trampoline_bytes(st, target));
            assert(code@.len() == 29);
            m.write_bytes(fresh, &code)
        },
    }
}

/// Install the detour: check the builder's first bytes, build the trampoline in `fresh` unless
/// there is one, and replace the builder's first bytes by a jump to `relay`. The host keeps all
/// other threads suspended while it makes the change. Once installed, it stays installed.
pub fn install(s: &mut SeedHook, m: &mut Memory, sim_base: u64, fresh: u64, relay: u64) -> (r:
    Install)
    ensures
        ({
            let o = install_outcome(*old(s), old(m)@, sim_base, fresh, relay);
            &&& r == o.0
            &&& final(m)@ == o.1
            &&& *final(s) == (SeedHook {
                target: match r {
                    Install::Done { target } => target,
                    _ => old(s).target,
                },
                installed: old(s).installed || r is Done,
                trampoline: o.2,
                ..*old(s)
            })
        }),
{
    if s.installed {
        return Install::Already;
    }
    if sim_base == 0 {
        return Install::NoModule;
    }
    let target = sim_base.wrapping_add(SEED_BUILDER_RVA);
    if !has_prologue(m, target) {
        return Install::Mismatch { target };
    }
    if s.trampoline == 0 {
        if !build_trampoline(m, target, fresh) {
            return Install::NoTrampoline;
        }
        s.trampoline = fresh;
    }
    s.target = target;
    let mut patch: Vec<u8> = Vec::new();
    push_jump(&mut patch, relay);
    patch.push(0x90);
    assert(patch@ =~= patch_bytes(relay));
    assert(patch@.len() == 15);
    m.write_bytes(target, &patch);
    s.installed = true;
    Install::Done { target }
}

/// Memory after the builder's first bytes are put back from the trampoline, which a fault
/// leaves as it is.
pub open spec fn unpatched(m: Bytes, target: u64, trampoline: u64) -> Bytes {
    match bytes_at(m, trampoline, STEAL as nat) {
        None => m,
        Some(stolen) => if bytes_at(m, target, STEAL as nat) is Some {
            put_bytes(m, target, stolen)
        } else {
            m
        },
    }
}

/// What a removal leaves of the state: a detour that was installed publishes nothing any more.
pub open spec fn seed_removed(before: SeedHook, after: SeedHook) -> bool {
    &&& after == (SeedHook { installed: false, clusters: after.clusters, ..before })
    &&& forall|i: int|
        0 <= i < 32 ==> #[trigger] after.clusters[i] == if before.installed {
            0
        } else {
            before.clusters[i]
        }
}

/// Remove the detour: put the builder's first bytes back and publish nothing. The trampoline
/// stays, as a thread may still be in it. True if the detour was installed.
pub fn uninstall(s: &mut SeedHook, m: &mut Memory) -> (r: bool)
    ensures
        r == old(s).installed,
        seed_removed(*old(s), *final(s)),
        final(m)@ == if r && old(s).target != 0 && old(s).trampoline != 0 {
            unpatched(old(m)@, old(s).target, old(s).trampoline)
        } else {
            old(m)@
        },
{
    if !s.installed {
        return false;
    }
    s.installed = false;
    let none: Vec<u32> = Vec::new();
    publish(s, &none);
    if s.target == 0 || s.trampoline == 0 {
        return true;
    }
    if let Some(stolen) = m.read_bytes(s.trampoline, STEAL) {
        assert(stolen@.len() == 15);
        m.write_bytes(s.target, &stolen);
    }
    true
}

/// Installing the detour and removing it leaves the code as it was: outside a trampoline that is
/// built on the way, memory is what it was before. A trampoline from before must hold the bytes
/// that the builder starts with.
pub proof fn law_uninstall_restores(
    s: SeedHook,
    m: Bytes,
    sim_base: u64,
    fresh: u64,
    relay: u64,
    x: u64,
)
    requires
        ({
            let target = off(sim_base, SEED_BUILDER_RVA);
            let o = install_outcome(s, m, sim_base, fresh, relay);
            &&& o.0 is Done
            &&& apart(o.2, 29, target, 15)
            &&& s.trampoline == 0 ==> !inside(x, fresh, 29)
            &&& s.trampoline != 0 ==> bytes_at(m, s.trampoline, 15) == bytes_at(m, target, 15)
        }),
    ensures
        ({
            let o = install_outcome(s, m, sim_base, fresh, relay);
            u8_at(unpatched(o.1, off(sim_base, SEED_BUILDER_RVA), o.2), x) == u8_at(m, x)
        }),
{
    let target = off(sim_base, SEED_BUILDER_RVA);
    if s.trampoline != 0 {
        if bytes_at(m, target, 15) is Some {
            lemma_patch_and_back(m, target, s.trampoline, relay, x);
        }
    } else {
        let tb = trampoline_bytes(bytes_at(m, target, 15)->0, target);
        lemma_build(m, target, fresh, x);
        lemma_patch_and_back(put_bytes(m, fresh, tb), target, fresh, relay, x);
    }
}

/// A trampoline holds the bytes that it was built from, and building it changes nothing else.
proof fn lemma_build(m: Bytes, target: u64, fresh: u64, x: u64)
    requires
        bytes_at(m, target, 15) is Some,
        apart(fresh, 29, target, 15),
        !inside(x, fresh, 29),
    ensures
        ({
            let stolen = bytes_at(m, target, 15);
            let m1 = put_bytes(m, fresh, trampoline_bytes(stolen->0, target));
            &&& bytes_at(m1, fresh, 15) == stolen
            &&& bytes_at(m1, target, 15) == stolen
            &&& u8_at(m1, x) == u8_at(m, x)
        }),
{
    let stolen = bytes_at(m, target, 15)->0;
    let tb = trampoline_bytes(stolen, target);
    assert(tb.len() == 29 && stolen.len() == 15);
    assert(tb.take(15) =~= stolen);
    lemma_put_bytes_apart(m, fresh, tb, target, 15);
    lemma_put_bytes_read(m, fresh, tb, 15);
    lemma_put_bytes(m, fresh, tb, x);
}

/// Patching the builder and copying the bytes of the trampoline back changes nothing.
proof fn lemma_patch_and_back(m: Bytes, target: u64, t: u64, relay: u64, x: u64)
    requires
        bytes_at(m, target, 15) is Some,
        bytes_at(m, t, 15) == bytes_at(m, target, 15),
        apart(t, 29, target, 15),
    ensures
        u8_at(unpatched(patched(m, target, relay), target, t), x) == u8_at(m, x),
{
    let stolen = bytes_at(m, target, 15)->0;
    let pb = patch_bytes(relay);
    let m2 = put_bytes(m, target, pb);
    assert(pb.len() == 15 && stolen.len() == 15);
    assert(unpatched(m2, target, t) == put_bytes(m2, target, stolen)) by {
        lemma_put_bytes_apart(m, target, pb, t, 15);
        lemma_put_bytes_read(m, target, pb, 15);
    }
    assert(dist(target, x) < 15 ==> u8_at(m, x) == Some(stolen[dist(target, x)])) by {
        if dist(target, x) < 15 {
            assert(elem(target, dist(target, x), 1) == x);
        }
    }
    lemma_put_bytes(m2, target, stolen, x);
    lemma_put_bytes(m, target, pb, x);
}

/// The threads of a snapshot, each with its process, that are to be suspended: those of process
/// `pid`, except `me`.
pub open spec fn other_threads(all: Seq<(u32, u32)>, pid: u32, me: u32) -> Seq<u32>
    decreases all.len(),
{
    if all.len() == 0 {
        Seq::empty()
    } else {
        let rest = other_threads(all.drop_last(), pid, me);
        let (owner, id) = all.last();
        if owner == pid && id != me {
            rest.push(id)
        } else {
            rest
        }
    }
}

/// Pick the threads to suspend: all threads of the process but the calling one.
pub fn suspend_others(all: &Vec<(u32, u32)>, pid: u32, me: u32) -> (r: Vec<u32>)
    ensures
        r@ == other_threads(all@, pid, me),
{
    let mut out: Vec<u32> = Vec::new();
    let mut i: usize = 0;
    assert(all@.take(0) =~= Seq::empty());
    while i < all.len()
        invariant
            i <= all.len(),
            out@ == other_threads(all@.take(i as int), pid, me),
        decreases all.len() - i,
    {
        let (owner, id) = all[i];
        if owner == pid && id != me {
            out.push(id);
        }
        proof {
            let t = all@.take(i + 1);
            assert(t.drop_last() =~= all@.take(i as int));
            assert(t.last() == all@[i as int]);
        }
        i += 1;
    }
    assert(all@.take(all.len() as int) =~= all@);
    out
}

/// The calling thread is never suspended.
pub proof fn law_never_suspends_itself(all: Seq<(u32, u32)>, pid: u32, me: u32)
    ensures
        !other_threads(all, pid, me).contains(me),
    decreases all.len(),
{
    if all.len() > 0 {
        law_never_suspends_itself(all.drop_last(), pid, me);
        let rest = other_threads(all.drop_last(), pid, me);
        let out = other_threads(all, pid, me);
        if out.contains(me) {
            let k = choose|k: int| 0 <= k < out.len() && out[k] == me;
            if k < rest.len() {
                assert(rest[k] == me);
            }
        }
    }
}

/// The mask can be read.
pub open spec fn mask_readable(m: Bytes, mask: u64) -> bool {
    forall|j: int| 0 <= j < 256 ==> u32_at(m, #[trigger] elem(mask, j, 4)) is Some
}

proof fn lemma_mask_kept(m: Bytes, mask: u64, j: int, v: u32)
    requires
        mask_readable(m, mask),
        0 <= j < 256,
    ensures
        mask_readable(put32(m, elem(mask, j, 4), v), mask),
        u32_at(put32(m, elem(mask, j, 4), v), elem(mask, j, 4)) == Some(v),
{
    let a = elem(mask, j, 4);
    let m1 = put32(m, a, v);
    crate::memory::lemma_put32_frame(m, a, v);
    assert forall|n: int| 0 <= n < 256 implies u32_at(m1, #[trigger] elem(mask, n, 4)) is Some by {
        if n != j {
            lemma_words_apart(mask, j, n);
            crate::memory::lemma_apart(elem(mask, n, 4), 4, a, 4);
            crate::memory::lemma_agree32(m, m1, elem(mask, n, 4));
        }
    }
}

proof fn lemma_relay_sets(m: Bytes, mask: u64, c: [u32; 32], i: int, k: int)
    requires
        0 <= i <= k < 32,
        c[k] >= SEED_SET,
        mask_index(c[k]) < 256,
        mask_readable(m, mask),
    ensures
        u32_at(seeded(m, mask, c, i), elem(mask, mask_index(c[k]), 4)) matches Some(v) && v
            & mask_bit(c[k]) == mask_bit(c[k]),
    decreases k - i,
{
    let packed = c[i];
    let j = mask_index(packed);
    let a = elem(mask, j, 4);
    if packed < SEED_SET || j * 4 + 4 > MASK_BYTES {
        lemma_relay_sets(m, mask, c, i + 1, k);
    } else {
        let w = u32_at(m, a)->0;
        let bit = mask_bit(packed);
        lemma_mask_kept(m, mask, j, w | bit);
        let m1 = put32(m, a, w | bit);
        if i == k {
            assert((w | bit) & bit == bit) by (bit_vector);
            law_relay_keeps_bits(m1, mask, c, i + 1, j, bit);
        } else {
            lemma_relay_sets(m1, mask, c, i + 1, k);
        }
    }
}

proof fn lemma_packed(bsp: i8, clu: u8)
    requires
        0 <= bsp < 32,
    ensures
        packed_cluster(bsp, clu) >= SEED_SET,
        mask_index(packed_cluster(bsp, clu)) == bsp * 8 + clu as int / 32,
        packed_cluster(bsp, clu) % 32 == clu as u32 % 32,
        0 <= bsp * 8 + clu as int / 32 < 256,
{
    let p = 0x8000_0000 + bsp * 0x100 + clu;
    assert(packed_cluster(bsp, clu) == p);
    assert(p / 0x100 == 0x80_0000 + bsp);
    assert((0x80_0000 + bsp) % 0x100 == bsp);
    assert(p % 0x100 == clu);
    assert(p % 32 == clu as int % 32);
}

/// A published cluster is in the mask once the detour has run: bit `clu % 32` of word
/// `8 * bsp + clu / 32` is set, for the cluster `clu` of the structure `bsp`. The mask has room for
/// 32 structures and can be read.
pub proof fn law_relay_sets_bit(m: Bytes, mask: u64, c: [u32; 32], k: int, bsp: i8, clu: u8)
    requires
        0 <= k < 32,
        0 <= bsp < 32,
        c[k] == packed_cluster(bsp, clu),
        mask_readable(m, mask),
    ensures
        u32_at(seeded(m, mask, c, 0), elem(mask, bsp * 8 + clu as int / 32, 4)) matches Some(v) && v
            & (1u32 << (clu as u32 % 32)) != 0,
{
    lemma_packed(bsp, clu);
    lemma_relay_sets(m, mask, c, 0, k);
    let s = clu as u32 % 32;
    assert(1u32 << s != 0) by (bit_vector)
        requires
            s < 32,
    ;
}

/// Clusters are published for a unit while publishing is on, anew on the first tick of every 16;
/// otherwise none is published.
pub proof fn law_publishing(
    before: SeedHook,
    after: SeedHook,
    m: Bytes,
    tls: u64,
    unit_handle: u32,
    near: Seq<bool>,
    i: int,
)
    requires
        seed_updated(before, after, m, tls, unit_handle, near),
        0 <= i < 32,
    ensures
        unit_handle == 0xffff_ffff || !before.widen ==> after.clusters[i] == 0 && after.tick
            == before.tick,
        unit_handle != 0xffff_ffff && before.widen && before.tick as int % 16 != 0
            ==> after.clusters[i] == before.clusters[i],
        unit_handle != 0xffff_ffff && before.widen && before.tick as int % 16 == 0 ==> ({
            let v = nearby_clusters(m, tls, unit_handle, near, 32);
            after.clusters[i] == if i < v.len() {
                v[i]
            } else {
                0
            }
        }),
        unit_handle != 0xffff_ffff && before.widen && before.tick < u32::MAX ==> after.tick
            == before.tick + 1,
{
}

/// The code that is written: a jump through the address behind it, 15 bytes with the no-op that
/// fills it up. The trampoline runs the builder's first 15 bytes and jumps to the sixteenth.
pub proof fn law_code_bytes(relay: u64, target: u64, stolen: Seq<u8>, i: int)
    requires
        stolen.len() == 15,
        0 <= i < 15,
    ensures
        patch_bytes(relay).len() == 15,
        patch_bytes(relay)[0] == 0xff && patch_bytes(relay)[1] == 0x25,
        2 <= i < 6 ==> patch_bytes(relay)[i] == 0,
        6 <= i < 14 ==> patch_bytes(relay)[i] == le64(relay)[i - 6],
        patch_bytes(relay)[14] == 0x90,
        trampoline_bytes(stolen, target).len() == 29,
        trampoline_bytes(stolen, target)[i] == stolen[i],
        i < 14 ==> trampoline_bytes(stolen, target)[15 + i] == patch_bytes(off(target, 15))[i],
{
}

/// The detour is installed once, only where the simulation is loaded and the builder's first eight
/// bytes are those of the supported build; otherwise memory is left alone.
pub proof fn law_install_outcomes(s: SeedHook, m: Bytes, sim_base: u64, fresh: u64, relay: u64)
    ensures
        ({
            let (r, n, t) = install_outcome(s, m, sim_base, fresh, relay);
            let target = off(sim_base, 0x20_ac90);
            let right = bytes_at(m, target, 8) == Some(
                seq![0x40u8, 0x53, 0x56, 0x57, 0x41, 0x56, 0x41, 0x57],
            );
            &&& r is Already <==> s.installed
            &&& r is NoModule <==> !s.installed && sim_base == 0
            &&& r is Mismatch <==> !s.installed && sim_base != 0 && !right
            &&& !(r is Done) ==> n == m
            &&& r matches Install::Done { target: at } ==> at == target && right
            &&& r is Done && s.trampoline == 0 ==> t == fresh
            &&& r is Done && s.trampoline != 0 ==> t == s.trampoline
        }),
{
    assert(expected_prologue() =~= seq![0x40u8, 0x53, 0x56, 0x57, 0x41, 0x56, 0x41, 0x57]);
}

/// Of all threads, those of the process other than the calling one are suspended: every one of
/// them, and no other.
pub proof fn law_threads_of_process(all: Seq<(u32, u32)>, pid: u32, me: u32, id: u32)
    ensures
        other_threads(all, pid, me).contains(id) <==> id != me && all.contains((pid, id)),
    decreases all.len(),
{
    if all.len() > 0 {
        let init = all.drop_last();
        let rest = other_threads(init, pid, me);
        law_threads_of_process(init, pid, me, id);
        let (owner, last) = all.last();
        let now = other_threads(all, pid, me);
        if all.contains((pid, id)) {
            let k = choose|k: int| 0 <= k < all.len() && all[k] == (pid, id);
            if k < init.len() {
                assert(init[k] == (pid, id));
            }
        }
        if init.contains((pid, id)) {
            let k = choose|k: int| 0 <= k < init.len() && init[k] == (pid, id);
            assert(all[k] == (pid, id));
        }
        assert(all[all.len() - 1] == (owner, last));
        if rest.contains(id) {
            let k = choose|k: int| 0 <= k < rest.len() && rest[k] == id;
            assert(now[k] == id);
        }
        if owner == pid && last != me {
            assert(now[now.len() - 1] == last);
        }
        if now.contains(id) {
            let k = choose|k: int| 0 <= k < now.len() && now[k] == id;
            if k < rest.len() {
                assert(rest[k] == id);
            }
        }
    }
}

} // verus!
