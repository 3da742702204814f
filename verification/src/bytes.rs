//! Parameter blocks: little-endian values in byte buffers.

use vstd::prelude::*;

verus! {

/// The four bytes of `v`, lowest first.
pub open spec fn le32(v: u32) -> Seq<u8> {
    seq![
        (v % 0x100) as u8,
        (v / 0x100 % 0x100) as u8,
        (v / 0x1_0000 % 0x100) as u8,
        (v / 0x100_0000) as u8,
    ]
}

/// The eight bytes of `v`, lowest first.
pub open spec fn le64(v: u64) -> Seq<u8> {
    le32((v % 0x1_0000_0000) as u32) + le32((v / 0x1_0000_0000) as u32)
}

/// `n` zero bytes.
pub open spec fn zeros(n: nat) -> Seq<u8> {
    Seq::new(n, |i: int| 0u8)
}

/// `s` with the bytes of `v` written over it from `at` on.
pub open spec fn overlaid(s: Seq<u8>, at: int, v: Seq<u8>) -> Seq<u8> {
    Seq::new(
        s.len(),
        |i: int|
            if at <= i < at + v.len() {
                v[i - at]
            } else {
                s[i]
            },
    )
}

/// The 32-bit value at `at`: 0 where the buffer is too short.
pub open spec fn word32(s: Seq<u8>, at: int) -> u32 {
    if 0 <= at && at + 4 <= s.len() {
        (s[at] + 0x100 * s[at + 1] + 0x1_0000 * s[at + 2] + 0x100_0000 * s[at + 3]) as u32
    } else {
        0
    }
}

/// The 64-bit value at `at`: 0 where the buffer is too short.
pub open spec fn word64(s: Seq<u8>, at: int) -> u64 {
    if 0 <= at && at + 8 <= s.len() {
        (word32(s, at) + 0x1_0000_0000 * word32(s, at + 4)) as u64
    } else {
        0
    }
}

/// Add the four bytes of `v`.
pub fn push_u32(out: &mut Vec<u8>, v: u32)
    ensures
        final(out)@ == old(out)@ + le32(v),
{
    out.push((v % 0x100) as u8);
    out.push((v / 0x100 % 0x100) as u8);
    out.push((v / 0x1_0000 % 0x100) as u8);
    out.push((v / 0x100_0000) as u8);
    assert(out@ =~= old(out)@ + le32(v));
}

/// Add the eight bytes of `v`.
pub fn push_u64(out: &mut Vec<u8>, v: u64)
    ensures
        final(out)@ == old(out)@ + le64(v),
{
    push_u32(out, (v % 0x1_0000_0000) as u32);
    push_u32(out, (v / 0x1_0000_0000) as u32);
    assert(out@ =~= old(out)@ + le64(v));
}

/// A buffer of `n` zero bytes.
pub fn zeroed(n: usize) -> (r: Vec<u8>)
    ensures
        r@ == zeros(n as nat),
{
    let mut out: Vec<u8> = Vec::new();
    let mut i: usize = 0;
    while i < n
        invariant
            i <= n,
            out@ == zeros(i as nat),
        decreases n - i,
    {
        out.push(0);
        assert(out@ =~= zeros((i + 1) as nat));
        i += 1;
    }
    out
}

fn overlay(out: &mut Vec<u8>, at: usize, v: &Vec<u8>)
    requires
        at + v@.len() <= old(out)@.len(),
    ensures
        final(out)@ == overlaid(old(out)@, at as int, v@),
{
    let mut i: usize = 0;
    let ghost start = out@;
    assert(overlaid(start, at as int, v@.take(0)) =~= start);
    while i < v.len()
        invariant
            i <= v.len(),
            at + v@.len() <= out@.len(),
            out@ == overlaid(start, at as int, v@.take(i as int)),
            out@.len() == start.len(),
        decreases v.len() - i,
    {
        assert(at + i < out.len());
        out.set(at + i, v[i]);
        i += 1;
        assert(out@ =~= overlaid(start, at as int, v@.take(i as int)));
    }
    assert(v@.take(v.len() as int) =~= v@);
}

/// Write one byte at `at`.
pub fn set_u8(out: &mut Vec<u8>, at: usize, v: u8)
    requires
        at < old(out)@.len(),
    ensures
        final(out)@ == overlaid(old(out)@, at as int, seq![v]),
{
    out.set(at, v);
    assert(out@ =~= overlaid(old(out)@, at as int, seq![v]));
}

/// Write a 32-bit value at `at`.
pub fn set_u32(out: &mut Vec<u8>, at: usize, v: u32)
    requires
        at + 4 <= old(out)@.len(),
    ensures
        final(out)@ == overlaid(old(out)@, at as int, le32(v)),
{
    let mut b: Vec<u8> = Vec::new();
    push_u32(&mut b, v);
    assert(b@ =~= le32(v));
    overlay(out, at, &b);
}

/// Write a 64-bit value at `at`.
pub fn set_u64(out: &mut Vec<u8>, at: usize, v: u64)
    requires
        at + 8 <= old(out)@.len(),
    ensures
        final(out)@ == overlaid(old(out)@, at as int, le64(v)),
{
    let mut b: Vec<u8> = Vec::new();
    push_u64(&mut b, v);
    assert(b@ =~= le64(v));
    overlay(out, at, &b);
}

/// The 32-bit value at `at` (0 where the buffer is too short).
pub fn get_u32(s: &Vec<u8>, at: usize) -> (r: u32)
    ensures
        r == word32(s@, at as int),
{
    if at <= s.len() && s.len() - at >= 4 {
        s[at] as u32 + 0x100 * (s[at + 1] as u32) + 0x1_0000 * (s[at + 2] as u32) + 0x100_0000 * (
        s[at + 3] as u32)
    } else {
        0
    }
}

/// The 64-bit value at `at` (0 where the buffer is too short).
pub fn get_u64(s: &Vec<u8>, at: usize) -> (r: u64)
    ensures
        r == word64(s@, at as int),
{
    if at <= s.len() && s.len() - at >= 8 {
        get_u32(s, at) as u64 + 0x1_0000_0000 * (get_u32(s, at + 4) as u64)
    } else {
        0
    }
}

/// A value written into a buffer is read back from it.
pub proof fn law_read_back(s: Seq<u8>, at: int, v: u64)
    requires
        0 <= at,
        at + 8 <= s.len(),
    ensures
        word64(overlaid(s, at, le64(v)), at) == v,
        word32(overlaid(s, at, le32((v % 0x1_0000_0000) as u32)), at) == v % 0x1_0000_0000,
{
    let lo = (v % 0x1_0000_0000) as u32;
    let hi = (v / 0x1_0000_0000) as u32;
    let t = overlaid(s, at, le64(v));
    assert(t[at] == le32(lo)[0] && t[at + 1] == le32(lo)[1] && t[at + 2] == le32(lo)[2] && t[at + 3]
        == le32(lo)[3]);
    assert(t[at + 4] == le32(hi)[0] && t[at + 5] == le32(hi)[1] && t[at + 6] == le32(hi)[2] && t[at
        + 7] == le32(hi)[3]);
    assert(word32(t, at) == lo);
    assert(word32(t, at + 4) == hi);
}

/// Values are laid out with their lowest byte first.
pub proof fn law_lowest_first(v: u32, w: u64)
    ensures
        le32(v).len() == 4,
        le32(v)[0] + 256 * le32(v)[1] + 65536 * le32(v)[2] + 16777216 * le32(v)[3] == v,
        le64(w).len() == 8,
        le64(w).take(4) == le32((w % 0x1_0000_0000) as u32),
        le64(w).skip(4) == le32((w / 0x1_0000_0000) as u32),
{
    assert(le64(w).take(4) =~= le32((w % 0x1_0000_0000) as u32));
    assert(le64(w).skip(4) =~= le32((w / 0x1_0000_0000) as u32));
}

} // verus!
