//! An image of the game process's memory: the bytes that have been read so far, by address.
//!
//! The engine addresses everything it touches as a 64-bit number. A read of an address that
//! the image does not hold is a fault, the same as an access violation on the live process:
//! the read yields nothing and the caller falls back. Each such read is noted, so that the
//! host can fetch the bytes it is able to fetch and run the operation again. A write that
//! faults changes nothing.
//!
//! Multi-byte values are little-endian and address arithmetic wraps at 2^64.

use std::collections::HashMap;

use vstd::prelude::*;

verus! {

broadcast use vstd::std_specs::hash::group_hash_axioms;

/// Memory as a mathematical map from address to byte.
pub type Bytes = Map<u64, u8>;

/// `a + n`, wrapping at 2^64.
pub open spec fn off(a: u64, n: u64) -> u64 {
    if a + n > u64::MAX {
        (a + n - 0x1_0000_0000_0000_0000) as u64
    } else {
        (a + n) as u64
    }
}

/// `a - n`, wrapping at 2^64.
pub open spec fn back(a: u64, n: u64) -> u64 {
    if a < n {
        (a - n + 0x1_0000_0000_0000_0000) as u64
    } else {
        (a - n) as u64
    }
}

/// Address of element `i` of an array at `base` whose elements are `stride` bytes long.
pub open spec fn elem(base: u64, i: int, stride: int) -> u64 {
    ((base + i * stride) % 0x1_0000_0000_0000_0000) as u64
}

/// How far `x` lies above `b`, going upward and wrapping.
pub open spec fn dist(b: u64, x: u64) -> int {
    if x >= b {
        x - b
    } else {
        x - b + 0x1_0000_0000_0000_0000
    }
}

/// `x` is one of the `k` addresses that start at `b`.
pub open spec fn inside(x: u64, b: u64, k: int) -> bool {
    dist(b, x) < k
}

/// The `n` addresses at `a` and the `k` addresses at `b` have none in common.
pub open spec fn apart(a: u64, n: int, b: u64, k: int) -> bool {
    dist(b, a) >= k && dist(a, b) >= n
}

/// The byte at `a`, if the image holds it.
pub open spec fn u8_at(m: Bytes, a: u64) -> Option<u8> {
    if m.dom().contains(a) {
        Some(m[a])
    } else {
        None
    }
}

/// The two-byte value at `a`.
#[verifier::opaque]
pub open spec fn u16_at(m: Bytes, a: u64) -> Option<u16> {
    match (u8_at(m, a), u8_at(m, off(a, 1))) {
        (Some(lo), Some(hi)) => Some((lo + 0x100 * hi) as u16),
        _ => None,
    }
}

/// The four-byte value at `a`.
#[verifier::opaque]
pub open spec fn u32_at(m: Bytes, a: u64) -> Option<u32> {
    match (u16_at(m, a), u16_at(m, off(a, 2))) {
        (Some(lo), Some(hi)) => Some((lo + 0x1_0000 * hi) as u32),
        _ => None,
    }
}

/// The eight-byte value at `a`.
#[verifier::opaque]
pub open spec fn u64_at(m: Bytes, a: u64) -> Option<u64> {
    match (u32_at(m, a), u32_at(m, off(a, 4))) {
        (Some(lo), Some(hi)) => Some((lo + 0x1_0000_0000 * hi) as u64),
        _ => None,
    }
}

/// The two's-complement reading of a byte.
pub open spec fn signed8(v: u8) -> i8 {
    if v < 0x80 {
        v as i8
    } else {
        (v - 0x100) as i8
    }
}

/// The two's-complement reading of a 16-bit value.
pub open spec fn signed16(v: u16) -> i16 {
    if v < 0x8000 {
        v as i16
    } else {
        (v - 0x1_0000) as i16
    }
}

/// The two's-complement reading of a 32-bit value.
pub open spec fn signed32(v: u32) -> i32 {
    if v < 0x8000_0000 {
        v as i32
    } else {
        (v - 0x1_0000_0000) as i32
    }
}

/// The 8-bit pattern of a signed value.
pub open spec fn pattern8(v: i8) -> u8 {
    if v < 0 {
        (v + 0x100) as u8
    } else {
        v as u8
    }
}

/// The 16-bit pattern of a signed value.
pub open spec fn pattern16(v: i16) -> u16 {
    if v < 0 {
        (v + 0x1_0000) as u16
    } else {
        v as u16
    }
}

/// The 32-bit pattern of a signed value.
pub open spec fn pattern32(v: i32) -> u32 {
    if v < 0 {
        (v + 0x1_0000_0000) as u32
    } else {
        v as u32
    }
}

/// The signed byte at `a`.
pub open spec fn i8_at(m: Bytes, a: u64) -> Option<i8> {
    match u8_at(m, a) {
        Some(v) => Some(signed8(v)),
        None => None,
    }
}

/// The signed 16-bit value at `a`.
pub open spec fn i16_at(m: Bytes, a: u64) -> Option<i16> {
    match u16_at(m, a) {
        Some(v) => Some(signed16(v)),
        None => None,
    }
}

/// The signed 32-bit value at `a`.
pub open spec fn i32_at(m: Bytes, a: u64) -> Option<i32> {
    match u32_at(m, a) {
        Some(v) => Some(signed32(v)),
        None => None,
    }
}

/// The non-null pointer stored at `a`: a null pointer ends a walk just as a fault does.
pub open spec fn link(m: Bytes, a: u64) -> Option<u64> {
    match u64_at(m, a) {
        Some(0) => None,
        p => p,
    }
}

/// The `n` bytes at `a`.
pub open spec fn bytes_at(m: Bytes, a: u64, n: nat) -> Option<Seq<u8>> {
    if forall|i: int| 0 <= i < n ==> m.dom().contains(#[trigger] elem(a, i, 1)) {
        Some(Seq::new(n, |i: int| m[elem(a, i, 1)]))
    } else {
        None
    }
}

/// The first of the addresses `i..n` behind `a` that the image does not hold; `a` if it holds all.
pub open spec fn missing_from(m: Bytes, a: u64, i: int, n: int) -> u64
    decreases n - i,
{
    if i >= n {
        a
    } else if u8_at(m, elem(a, i, 1)) is None {
        elem(a, i, 1)
    } else {
        missing_from(m, a, i + 1, n)
    }
}

/// The `n` 16-bit values at `a`.
pub open spec fn units_at(m: Bytes, a: u64, n: nat) -> Option<Seq<u16>> {
    if forall|i: int| 0 <= i < n ==> u16_at(m, #[trigger] elem(a, i, 2)) is Some {
        Some(Seq::new(n, |i: int| u16_at(m, elem(a, i, 2))->0))
    } else {
        None
    }
}

/// Three consecutive 32-bit values at `a`.
pub open spec fn triple_at(m: Bytes, a: u64) -> Option<[u32; 3]> {
    match (u32_at(m, a), u32_at(m, off(a, 4)), u32_at(m, off(a, 8))) {
        (Some(x), Some(y), Some(z)) => Some([x, y, z]),
        _ => None,
    }
}

/// Memory after the byte at `a` becomes `v`.
pub open spec fn put8(m: Bytes, a: u64, v: u8) -> Bytes {
    m.insert(a, v)
}

/// Memory after the two bytes at `a` become `v`.
#[verifier::opaque]
pub open spec fn put16(m: Bytes, a: u64, v: u16) -> Bytes {
    put8(put8(m, a, (v % 0x100) as u8), off(a, 1), (v / 0x100) as u8)
}

/// Memory after the four bytes at `a` become `v`.
#[verifier::opaque]
pub open spec fn put32(m: Bytes, a: u64, v: u32) -> Bytes {
    put16(put16(m, a, (v % 0x1_0000) as u16), off(a, 2), (v / 0x1_0000) as u16)
}

/// Memory after the eight bytes at `a` become `v`.
#[verifier::opaque]
pub open spec fn put64(m: Bytes, a: u64, v: u64) -> Bytes {
    put32(put32(m, a, (v % 0x1_0000_0000) as u32), off(a, 4), (v / 0x1_0000_0000) as u32)
}

/// A store of one byte: a fault leaves memory as it was.
pub open spec fn store8(m: Bytes, a: u64, v: u8) -> Bytes {
    if u8_at(m, a) is Some {
        put8(m, a, v)
    } else {
        m
    }
}

/// A store of two bytes: a fault leaves memory as it was.
pub open spec fn store16(m: Bytes, a: u64, v: u16) -> Bytes {
    if u16_at(m, a) is Some {
        put16(m, a, v)
    } else {
        m
    }
}

/// A store of four bytes: a fault leaves memory as it was.
pub open spec fn store32(m: Bytes, a: u64, v: u32) -> Bytes {
    if u32_at(m, a) is Some {
        put32(m, a, v)
    } else {
        m
    }
}

/// A store of eight bytes: a fault leaves memory as it was.
pub open spec fn store64(m: Bytes, a: u64, v: u64) -> Bytes {
    if u64_at(m, a) is Some {
        put64(m, a, v)
    } else {
        m
    }
}

/// Three four-byte stores in a row, and whether all three landed: a fault ends the row.
pub open spec fn store_triple(m: Bytes, a: u64, v: [u32; 3]) -> (Bytes, bool) {
    if u32_at(m, a) is None {
        (m, false)
    } else {
        let m1 = put32(m, a, v[0]);
        if u32_at(m1, off(a, 4)) is None {
            (m1, false)
        } else {
            let m2 = put32(m1, off(a, 4), v[1]);
            if u32_at(m2, off(a, 8)) is None {
                (m2, false)
            } else {
                (put32(m2, off(a, 8), v[2]), true)
            }
        }
    }
}

/// One store of a row of stores: where, and what.
#[derive(Clone, Copy, PartialEq, Eq, Structural)]
pub enum Put {
    Byte(u64, u8),
    Word(u64, u32),
    Long(u64, u64),
}

/// Memory after one store, and whether it landed.
pub open spec fn put_one(m: Bytes, p: Put) -> (Bytes, bool) {
    match p {
        Put::Byte(at, v) => (store8(m, at, v), u8_at(m, at) is Some),
        Put::Word(at, v) => (store32(m, at, v), u32_at(m, at) is Some),
        Put::Long(at, v) => (store64(m, at, v), u64_at(m, at) is Some),
    }
}

/// Memory after a row of stores, and whether all of them landed: the first fault ends the row.
pub open spec fn put_all(m: Bytes, row: Seq<Put>) -> (Bytes, bool)
    decreases row.len(),
{
    if row.len() == 0 {
        (m, true)
    } else {
        let p = put_all(m, row.drop_last());
        if p.1 {
            put_one(p.0, row.last())
        } else {
            p
        }
    }
}

/// Memory after the bytes of `s` are stored from `a` on.
pub open spec fn put_bytes(m: Bytes, a: u64, s: Seq<u8>) -> Bytes
    decreases s.len(),
{
    if s.len() == 0 {
        m
    } else {
        put_bytes(m, a, s.drop_last()).insert(elem(a, s.len() - 1, 1), s.last())
    }
}

/// The image of the process's memory that the engine works on.
pub struct Memory {
    cells: HashMap<u64, u8>,
    missing: Vec<u64>,
}

impl View for Memory {
    type V = Map<u64, u8>;

    closed spec fn view(&self) -> Map<u64, u8> {
        self.cells@
    }
}

impl Memory {
    /// The addresses at which reads and writes faulted, oldest first: of each the first byte that
    /// the image does not hold.
    pub closed spec fn faults(&self) -> Seq<u64> {
        self.missing@
    }

    /// An image that holds nothing yet.
    pub fn new() -> (r: Memory)
        ensures
            r@ == Map::<u64, u8>::empty(),
            r.faults() == Seq::<u64>::empty(),
    {
        Memory { cells: HashMap::new(), missing: Vec::new() }
    }

    /// Put one fetched byte into the image.
    pub fn load(&mut self, a: u64, v: u8)
        ensures
            final(self)@ == old(self)@.insert(a, v),
            final(self).faults() == old(self).faults(),
    {
        self.cells.insert(a, v);
    }

    /// Put fetched bytes into the image, from `a` on.
    pub fn load_bytes(&mut self, a: u64, v: &Vec<u8>)
        ensures
            final(self)@ == put_bytes(old(self)@, a, v@),
            final(self).faults() == old(self).faults(),
    {
        let mut i: usize = 0;
        proof {
            assert(v@.take(0) =~= Seq::<u8>::empty());
        }
        while i < v.len()
            invariant
                i <= v.len(),
                self@ == put_bytes(old(self)@, a, v@.take(i as int)),
                self.faults() == old(self).faults(),
            decreases v.len() - i,
        {
            self.cells.insert(elem_addr(a, i as u64, 1), v[i]);
            proof {
                let t = v@.take(i + 1);
                assert(t.drop_last() =~= v@.take(i as int));
                assert(t.last() == v@[i as int]);
            }
            i += 1;
        }
        proof {
            assert(v@.take(v.len() as int) =~= v@);
        }
    }

    /// The byte at `a`, without noting a fault.
    pub fn peek(&self, a: u64) -> (r: Option<u8>)
        ensures
            r == u8_at(self@, a),
    {
        match self.cells.get(&a) {
            Some(v) => Some(*v),
            None => None,
        }
    }

    /// Hand out the noted faults and forget them.
    pub fn take_faults(&mut self) -> (r: Vec<u64>)
        ensures
            r@ == old(self).faults(),
            final(self).faults() == Seq::<u64>::empty(),
            final(self)@ == old(self)@,
    {
        let mut out: Vec<u64> = Vec::new();
        out.append(&mut self.missing);
        out
    }

    fn note<T>(&mut self, a: u64, r: Option<T>) -> (out: Option<T>)
        ensures
            out == r,
            final(self)@ == old(self)@,
            final(self).faults() == (if r is None {
                old(self).faults().push(a)
            } else {
                old(self).faults()
            }),
    {
        if r.is_none() {
            self.missing.push(a);
        }
        r
    }

    fn peek16(&self, a: u64) -> (r: Option<u16>)
        ensures
            r == u16_at(self@, a),
    {
        proof {
            reveal(u16_at);
        }
        match (self.peek(a), self.peek(a.wrapping_add(1))) {
            (Some(lo), Some(hi)) => Some(lo as u16 + 0x100 * (hi as u16)),
            _ => None,
        }
    }

    fn peek32(&self, a: u64) -> (r: Option<u32>)
        ensures
            r == u32_at(self@, a),
    {
        proof {
            reveal(u32_at);
        }
        match (self.peek16(a), self.peek16(a.wrapping_add(2))) {
            (Some(lo), Some(hi)) => Some(lo as u32 + 0x1_0000 * (hi as u32)),
            _ => None,
        }
    }

    fn peek64(&self, a: u64) -> (r: Option<u64>)
        ensures
            r == u64_at(self@, a),
    {
        proof {
            reveal(u64_at);
        }
        match (self.peek32(a), self.peek32(a.wrapping_add(4))) {
            (Some(lo), Some(hi)) => Some(lo as u64 + 0x1_0000_0000 * (hi as u64)),
            _ => None,
        }
    }

    fn first_missing(&self, a: u64, n: u64) -> (r: u64)
        ensures
            r == missing_from(self@, a, 0, n as int),
    {
        let mut i: u64 = 0;
        while i < n
            invariant
                i <= n,
                missing_from(self@, a, 0, n as int) == missing_from(self@, a, i as int, n as int),
            decreases n - i,
        {
            let at = elem_addr(a, i, 1);
            if self.peek(at).is_none() {
                return at;
            }
            i += 1;
        }
        a
    }

    /// Read a byte.
    pub fn read_u8(&mut self, a: u64) -> (r: Option<u8>)
        ensures
            r == u8_at(old(self)@, a),
            final(self)@ == old(self)@,
            final(self).faults() == (if r is None {
                old(self).faults().push(a)
            } else {
                old(self).faults()
            }),
    {
        let r = self.peek(a);
        self.note(a, r)
    }

    /// Read a signed byte.
    pub fn read_i8(&mut self, a: u64) -> (r: Option<i8>)
        ensures
            r == i8_at(old(self)@, a),
            final(self)@ == old(self)@,
    {
        match self.read_u8(a) {
            Some(v) => Some(to_i8(v)),
            None => None,
        }
    }

    /// Read a 16-bit value.
    pub fn read_u16(&mut self, a: u64) -> (r: Option<u16>)
        ensures
            r == u16_at(old(self)@, a),
            final(self)@ == old(self)@,
            final(self).faults() == (if r is None {
                old(self).faults().push(missing_from(old(self)@, a, 0, 2))
            } else {
                old(self).faults()
            }),
    {
        let r = self.peek16(a);
        let at = self.first_missing(a, 2);
        self.note(at, r)
    }

    /// Read a signed 16-bit value.
    pub fn read_i16(&mut self, a: u64) -> (r: Option<i16>)
        ensures
            r == i16_at(old(self)@, a),
            final(self)@ == old(self)@,
    {
        match self.read_u16(a) {
            Some(v) => Some(to_i16(v)),
            None => None,
        }
    }

    /// Read a 32-bit value.
    pub fn read_u32(&mut self, a: u64) -> (r: Option<u32>)
        ensures
            r == u32_at(old(self)@, a),
            final(self)@ == old(self)@,
            final(self).faults() == (if r is None {
                old(self).faults().push(missing_from(old(self)@, a, 0, 4))
            } else {
                old(self).faults()
            }),
    {
        let r = self.peek32(a);
        let at = self.first_missing(a, 4);
        self.note(at, r)
    }

    /// Read a signed 32-bit value.
    pub fn read_i32(&mut self, a: u64) -> (r: Option<i32>)
        ensures
            r == i32_at(old(self)@, a),
            final(self)@ == old(self)@,
    {
        match self.read_u32(a) {
            Some(v) => Some(to_i32(v)),
            None => None,
        }
    }

    /// Read a 64-bit value.
    pub fn read_u64(&mut self, a: u64) -> (r: Option<u64>)
        ensures
            r == u64_at(old(self)@, a),
            final(self)@ == old(self)@,
            final(self).faults() == (if r is None {
                old(self).faults().push(missing_from(old(self)@, a, 0, 8))
            } else {
                old(self).faults()
            }),
    {
        let r = self.peek64(a);
        let at = self.first_missing(a, 8);
        self.note(at, r)
    }

    /// Follow the pointer stored at `a`: `None` on a fault or a null pointer.
    pub fn read_link(&mut self, a: u64) -> (r: Option<u64>)
        ensures
            r == link(old(self)@, a),
            final(self)@ == old(self)@,
    {
        match self.read_u64(a) {
            Some(p) => if p == 0 {
                None
            } else {
                Some(p)
            },
            None => None,
        }
    }

    /// Read three consecutive 32-bit values.
    pub fn read_triple(&mut self, a: u64) -> (r: Option<[u32; 3]>)
        ensures
            r == triple_at(old(self)@, a),
            final(self)@ == old(self)@,
    {
        let x = self.read_u32(a);
        let y = self.read_u32(a.wrapping_add(4));
        let z = self.read_u32(a.wrapping_add(8));
        match (x, y, z) {
            (Some(x), Some(y), Some(z)) => Some([x, y, z]),
            _ => None,
        }
    }

    /// Read `n` bytes.
    pub fn read_bytes(&mut self, a: u64, n: usize) -> (r: Option<Vec<u8>>)
        ensures
            r is Some == bytes_at(old(self)@, a, n as nat) is Some,
            r matches Some(v) ==> bytes_at(old(self)@, a, n as nat) == Some(v@),
            final(self)@ == old(self)@,
    {
        let mut out: Vec<u8> = Vec::new();
        let mut i: usize = 0;
        while i < n
            invariant
                i <= n,
                out@.len() == i,
                self@ == old(self)@,
                forall|j: int|
                    0 <= j < i ==> old(self)@.dom().contains(#[trigger] elem(a, j, 1)) && out@[j]
                        == old(self)@[elem(a, j, 1)],
            decreases n - i,
        {
            match self.read_u8(elem_addr(a, i as u64, 1)) {
                Some(v) => out.push(v),
                None => {
                    assert(!old(self)@.dom().contains(elem(a, i as int, 1)));
                    return None;
                },
            }
            i += 1;
        }
        assert(out@ =~= Seq::new(n as nat, |i: int| old(self)@[elem(a, i, 1)]));
        Some(out)
    }

    /// Read `n` 16-bit values.
    pub fn read_units(&mut self, a: u64, n: usize) -> (r: Option<Vec<u16>>)
        ensures
            r is Some == units_at(old(self)@, a, n as nat) is Some,
            r matches Some(v) ==> units_at(old(self)@, a, n as nat) == Some(v@),
            final(self)@ == old(self)@,
    {
        let mut out: Vec<u16> = Vec::new();
        let mut i: usize = 0;
        while i < n
            invariant
                i <= n,
                out@.len() == i,
                self@ == old(self)@,
                forall|j: int|
                    0 <= j < i ==> u16_at(old(self)@, #[trigger] elem(a, j, 2)) == Some(out@[j]),
            decreases n - i,
        {
            match self.read_u16(elem_addr(a, i as u64, 2)) {
                Some(v) => out.push(v),
                None => {
                    assert(u16_at(old(self)@, elem(a, i as int, 2)) is None);
                    return None;
                },
            }
            i += 1;
        }
        assert(out@ =~= Seq::new(n as nat, |i: int| u16_at(old(self)@, elem(a, i, 2))->0));
        Some(out)
    }

    /// Write a byte. True if the write landed.
    pub fn write_u8(&mut self, a: u64, v: u8) -> (r: bool)
        ensures
            r == (u8_at(old(self)@, a) is Some),
            final(self)@ == store8(old(self)@, a, v),
    {
        if self.read_u8(a).is_none() {
            return false;
        }
        self.cells.insert(a, v);
        true
    }

    /// Write a signed byte. True if the write landed.
    pub fn write_i8(&mut self, a: u64, v: i8) -> (r: bool)
        ensures
            r == (u8_at(old(self)@, a) is Some),
            final(self)@ == store8(old(self)@, a, pattern8(v)),
    {
        self.write_u8(a, from_i8(v))
    }

    fn poke16(&mut self, a: u64, v: u16)
        ensures
            final(self)@ == put16(old(self)@, a, v),
    {
        proof {
            reveal(put16);
        }
        self.cells.insert(a, (v % 0x100) as u8);
        self.cells.insert(a.wrapping_add(1), (v / 0x100) as u8);
    }

    fn poke32(&mut self, a: u64, v: u32)
        ensures
            final(self)@ == put32(old(self)@, a, v),
    {
        proof {
            reveal(put32);
        }
        self.poke16(a, (v % 0x1_0000) as u16);
        self.poke16(a.wrapping_add(2), (v / 0x1_0000) as u16);
    }

    /// Write a 16-bit value. True if the write landed.
    pub fn write_u16(&mut self, a: u64, v: u16) -> (r: bool)
        ensures
            r == (u16_at(old(self)@, a) is Some),
            final(self)@ == store16(old(self)@, a, v),
    {
        if self.read_u16(a).is_none() {
            return false;
        }
        self.poke16(a, v);
        true
    }

    /// Write a signed 16-bit value. True if the write landed.
    pub fn write_i16(&mut self, a: u64, v: i16) -> (r: bool)
        ensures
            r == (u16_at(old(self)@, a) is Some),
            final(self)@ == store16(old(self)@, a, pattern16(v)),
    {
        self.write_u16(a, from_i16(v))
    }

    /// Write a 32-bit value. True if the write landed.
    pub fn write_u32(&mut self, a: u64, v: u32) -> (r: bool)
        ensures
            r == (u32_at(old(self)@, a) is Some),
            final(self)@ == store32(old(self)@, a, v),
    {
        if self.read_u32(a).is_none() {
            return false;
        }
        self.poke32(a, v);
        true
    }

    /// Write a signed 32-bit value. True if the write landed.
    pub fn write_i32(&mut self, a: u64, v: i32) -> (r: bool)
        ensures
            r == (u32_at(old(self)@, a) is Some),
            final(self)@ == store32(old(self)@, a, pattern32(v)),
    {
        self.write_u32(a, from_i32(v))
    }

    /// Write a 64-bit value. True if the write landed.
    pub fn write_u64(&mut self, a: u64, v: u64) -> (r: bool)
        ensures
            r == (u64_at(old(self)@, a) is Some),
            final(self)@ == store64(old(self)@, a, v),
    {
        if self.read_u64(a).is_none() {
            return false;
        }
        proof {
            reveal(put64);
        }
        self.poke32(a, (v % 0x1_0000_0000) as u32);
        self.poke32(a.wrapping_add(4), (v / 0x1_0000_0000) as u32);
        true
    }

    /// Write a run of bytes. It lands as a whole or not at all.
    pub fn write_bytes(&mut self, a: u64, v: &Vec<u8>) -> (r: bool)
        ensures
            r == (bytes_at(old(self)@, a, v@.len()) is Some),
            final(self)@ == if r {
                put_bytes(old(self)@, a, v@)
            } else {
                old(self)@
            },
    {
        if self.read_bytes(a, v.len()).is_none() {
            return false;
        }
        self.load_bytes(a, v);
        true
    }

    /// Make a row of stores. True if all of them landed; the first fault ends the row.
    pub fn write_all(&mut self, row: &Vec<Put>) -> (r: bool)
        ensures
            (final(self)@, r) == put_all(old(self)@, row@),
    {
        let mut i: usize = 0;
        assert(row@.take(0) =~= Seq::empty());
        while i < row.len()
            invariant
                i <= row.len(),
                (self@, true) == put_all(old(self)@, row@.take(i as int)),
            decreases row.len() - i,
        {
            let p = row[i];
            let landed = match p {
                Put::Byte(at, v) => self.write_u8(at, v),
                Put::Word(at, v) => self.write_u32(at, v),
                Put::Long(at, v) => self.write_u64(at, v),
            };
            proof {
                let t = row@.take(i + 1);
                assert(t.drop_last() =~= row@.take(i as int));
                assert(t.last() == row@[i as int]);
                if !landed {
                    lemma_put_all_stops(old(self)@, row@, i + 1);
                }
            }
            if !landed {
                return false;
            }
            i += 1;
        }
        assert(row@.take(row.len() as int) =~= row@);
        true
    }

    /// Write three consecutive 32-bit values. True if all three writes landed.
    pub fn write_triple(&mut self, a: u64, v: [u32; 3]) -> (r: bool)
        ensures
            (final(self)@, r) == store_triple(old(self)@, a, v),
    {
        self.write_u32(a, v[0]) && self.write_u32(a.wrapping_add(4), v[1]) && self.write_u32(
            a.wrapping_add(8),
            v[2],
        )
    }
}

/// Address of element `i` of an array at `base` whose elements are `stride` bytes long.
pub fn elem_addr(base: u64, i: u64, stride: u32) -> (r: u64)
    ensures
        r == elem(base, i as int, stride as int),
{
    assert(0 <= i * stride <= 0x1_0000_0000_0000_0000 * 0x1_0000_0000) by (nonlinear_arith)
        requires
            0 <= i < 0x1_0000_0000_0000_0000,
            0 <= stride < 0x1_0000_0000,
    ;
    let wide: u128 = i as u128 * stride as u128;
    ((base as u128 + wide) % 0x1_0000_0000_0000_0000u128) as u64
}

/// The two's-complement reading of a byte.
pub fn to_i8(v: u8) -> (r: i8)
    ensures
        r == signed8(v),
{
    if v < 0x80 {
        v as i8
    } else {
        (v as i16 - 0x100) as i8
    }
}

/// The two's-complement reading of a 16-bit value.
pub fn to_i16(v: u16) -> (r: i16)
    ensures
        r == signed16(v),
{
    if v < 0x8000 {
        v as i16
    } else {
        (v as i32 - 0x1_0000) as i16
    }
}

/// The two's-complement reading of a 32-bit value.
pub fn to_i32(v: u32) -> (r: i32)
    ensures
        r == signed32(v),
{
    if v < 0x8000_0000 {
        v as i32
    } else {
        (v as i64 - 0x1_0000_0000) as i32
    }
}

/// The 8-bit pattern of a signed value.
pub fn from_i8(v: i8) -> (r: u8)
    ensures
        r == pattern8(v),
{
    if v < 0 {
        (v as i16 + 0x100) as u8
    } else {
        v as u8
    }
}

/// The 16-bit pattern of a signed value.
pub fn from_i16(v: i16) -> (r: u16)
    ensures
        r == pattern16(v),
{
    if v < 0 {
        (v as i32 + 0x1_0000) as u16
    } else {
        v as u16
    }
}

/// The 32-bit pattern of a signed value.
pub fn from_i32(v: i32) -> (r: u32)
    ensures
        r == pattern32(v),
{
    if v < 0 {
        (v as i64 + 0x1_0000_0000) as u32
    } else {
        v as u32
    }
}

/// The `n` cells at `a` are the same in both memories.
pub open spec fn agree(m1: Bytes, m2: Bytes, a: u64, n: int) -> bool {
    forall|x: u64| #[trigger] inside(x, a, n) ==> u8_at(m1, x) == u8_at(m2, x)
}

/// The `k` addresses from `a` on.
pub open spec fn span(a: u64, k: int) -> Set<u64> {
    Set::new(|x: u64| inside(x, a, k))
}

/// Two memories hold the same cells, and the same bytes in those outside `w`.
pub open spec fn same_but(m: Bytes, n: Bytes, w: Set<u64>) -> bool {
    &&& m.dom() == n.dom()
    &&& forall|x: u64| !w.contains(x) ==> #[trigger] u8_at(n, x) == u8_at(m, x)
}

proof fn lemma_missing(m: Bytes, a: u64, i: int, n: int, k: int)
    requires
        0 <= i <= k < n,
        u8_at(m, elem(a, k, 1)) is None,
    ensures
        u8_at(m, missing_from(m, a, i, n)) is None,
    decreases n - i,
{
    if u8_at(m, elem(a, i, 1)) is Some {
        lemma_missing(m, a, i + 1, n, k);
    }
}

/// The address that is noted for a read that faults is one that the image does not hold, so that
/// fetching it makes progress.
pub proof fn law_noted_byte_is_missing(m: Bytes, a: u64)
    ensures
        u16_at(m, a) is None ==> u8_at(m, missing_from(m, a, 0, 2)) is None,
        u32_at(m, a) is None ==> u8_at(m, missing_from(m, a, 0, 4)) is None,
        u64_at(m, a) is None ==> u8_at(m, missing_from(m, a, 0, 8)) is None,
{
    reveal(u16_at);
    reveal(u32_at);
    reveal(u64_at);
    if u16_at(m, a) is None {
        let k: int = choose|k: int| 0 <= k < 2 && u8_at(m, #[trigger] elem(a, k, 1)) is None;
        assert(elem(a, 0, 1) == a && elem(a, 1, 1) == off(a, 1));
        lemma_missing(m, a, 0, 2, k);
    }
    if u32_at(m, a) is None {
        let k: int = choose|k: int| 0 <= k < 4 && u8_at(m, #[trigger] elem(a, k, 1)) is None;
        assert(elem(a, 0, 1) == a && elem(a, 1, 1) == off(a, 1) && elem(a, 2, 1) == off(a, 2)
            && elem(a, 3, 1) == off(off(a, 2), 1));
        lemma_missing(m, a, 0, 4, k);
    }
    if u64_at(m, a) is None {
        let k: int = choose|k: int| 0 <= k < 8 && u8_at(m, #[trigger] elem(a, k, 1)) is None;
        let b = off(a, 4);
        assert(elem(a, 0, 1) == a && elem(a, 1, 1) == off(a, 1) && elem(a, 2, 1) == off(a, 2)
            && elem(a, 3, 1) == off(off(a, 2), 1));
        assert(elem(a, 4, 1) == b && elem(a, 5, 1) == off(b, 1) && elem(a, 6, 1) == off(b, 2)
            && elem(a, 7, 1) == off(off(b, 2), 1));
        lemma_missing(m, a, 0, 8, k);
    }
}

/// A two-byte store changes no other cell, and takes none away.
pub proof fn lemma_put16_frame(m: Bytes, a: u64, v: u16)
    ensures
        forall|x: u64| !inside(x, a, 2) ==> u8_at(#[trigger] put16(m, a, v), x) == u8_at(m, x),
        forall|x: u64| u8_at(m, x) is Some ==> u8_at(#[trigger] put16(m, a, v), x) is Some,
        u16_at(put16(m, a, v), a) == Some(v),
{
    reveal(put16);
    reveal(u16_at);
}

/// A four-byte store changes no other cell, takes none away, and is read back.
pub proof fn lemma_put32_frame(m: Bytes, a: u64, v: u32)
    ensures
        forall|x: u64| !inside(x, a, 4) ==> u8_at(#[trigger] put32(m, a, v), x) == u8_at(m, x),
        forall|x: u64| u8_at(m, x) is Some ==> u8_at(#[trigger] put32(m, a, v), x) is Some,
        u32_at(put32(m, a, v), a) == Some(v),
{
    reveal(put32);
    reveal(u32_at);
    let lo = (v % 0x1_0000) as u16;
    let hi = (v / 0x1_0000) as u16;
    let mid = put16(m, a, lo);
    lemma_put16_frame(m, a, lo);
    lemma_put16_frame(mid, off(a, 2), hi);
    assert(agree(mid, put16(mid, off(a, 2), hi), a, 2)) by {
        assert forall|x: u64| #[trigger] inside(x, a, 2) implies u8_at(mid, x) == u8_at(
            put16(mid, off(a, 2), hi),
            x,
        ) by {
            assert(!inside(x, off(a, 2), 2));
        }
    }
    lemma_agree16(mid, put16(mid, off(a, 2), hi), a);
    assert forall|x: u64| !inside(x, a, 4) implies u8_at(#[trigger] put32(m, a, v), x) == u8_at(
        m,
        x,
    ) by {
        assert(!inside(x, a, 2));
        assert(!inside(x, off(a, 2), 2));
    }
}

/// An eight-byte store changes no other cell, takes none away, and is read back.
pub proof fn lemma_put64_frame(m: Bytes, a: u64, v: u64)
    ensures
        forall|x: u64| !inside(x, a, 8) ==> u8_at(#[trigger] put64(m, a, v), x) == u8_at(m, x),
        forall|x: u64| u8_at(m, x) is Some ==> u8_at(#[trigger] put64(m, a, v), x) is Some,
        u64_at(put64(m, a, v), a) == Some(v),
{
    reveal(put64);
    reveal(u64_at);
    let lo = (v % 0x1_0000_0000) as u32;
    let hi = (v / 0x1_0000_0000) as u32;
    let mid = put32(m, a, lo);
    lemma_put32_frame(m, a, lo);
    lemma_put32_frame(mid, off(a, 4), hi);
    assert forall|x: u64| #[trigger] inside(x, a, 4) implies u8_at(mid, x) == u8_at(
        put32(mid, off(a, 4), hi),
        x,
    ) by {
        assert(!inside(x, off(a, 4), 4));
    }
    lemma_agree32(mid, put32(mid, off(a, 4), hi), a);
    assert forall|x: u64| !inside(x, a, 8) implies u8_at(#[trigger] put64(m, a, v), x) == u8_at(
        m,
        x,
    ) by {
        assert(!inside(x, a, 4));
        assert(!inside(x, off(a, 4), 4));
    }
}

/// A 16-bit read sees only the two cells it covers.
pub proof fn lemma_agree16(m1: Bytes, m2: Bytes, a: u64)
    requires
        agree(m1, m2, a, 2),
    ensures
        u16_at(m1, a) == u16_at(m2, a),
{
    reveal(u16_at);
    assert(inside(a, a, 2));
    assert(inside(off(a, 1), a, 2));
}

/// A 32-bit read sees only the four cells it covers.
pub proof fn lemma_agree32(m1: Bytes, m2: Bytes, a: u64)
    requires
        agree(m1, m2, a, 4),
    ensures
        u32_at(m1, a) == u32_at(m2, a),
{
    reveal(u32_at);
    assert forall|x: u64| #[trigger] inside(x, a, 2) implies u8_at(m1, x) == u8_at(m2, x) by {
        assert(inside(x, a, 4));
    }
    assert forall|x: u64| #[trigger] inside(x, off(a, 2), 2) implies u8_at(m1, x) == u8_at(
        m2,
        x,
    ) by {
        assert(inside(x, a, 4));
    }
    lemma_agree16(m1, m2, a);
    lemma_agree16(m1, m2, off(a, 2));
}

/// A 64-bit read sees only the eight cells it covers.
pub proof fn lemma_agree64(m1: Bytes, m2: Bytes, a: u64)
    requires
        agree(m1, m2, a, 8),
    ensures
        u64_at(m1, a) == u64_at(m2, a),
        link(m1, a) == link(m2, a),
{
    reveal(u64_at);
    assert forall|x: u64| #[trigger] inside(x, a, 4) implies u8_at(m1, x) == u8_at(m2, x) by {
        assert(inside(x, a, 8));
    }
    assert forall|x: u64| #[trigger] inside(x, off(a, 4), 4) implies u8_at(m1, x) == u8_at(
        m2,
        x,
    ) by {
        assert(inside(x, a, 8));
    }
    lemma_agree32(m1, m2, a);
    lemma_agree32(m1, m2, off(a, 4));
}

/// Windows that are apart share no address.
pub proof fn lemma_apart(a: u64, n: int, b: u64, k: int)
    requires
        apart(a, n, b, k),
    ensures
        forall|x: u64| #[trigger] inside(x, a, n) ==> !inside(x, b, k),
{
}

/// Storing a value and then the value that was there before restores memory.
pub proof fn lemma_restore16(m: Bytes, a: u64, v: u16, w: u16)
    requires
        u16_at(m, a) == Some(w),
    ensures
        put16(put16(m, a, v), a, w) == m,
{
    reveal(put16);
    reveal(u16_at);
    assert(put16(put16(m, a, v), a, w) =~= m);
}

/// Storing a value and then the value that was there before restores memory.
pub proof fn lemma_restore32(m: Bytes, a: u64, v: u32, w: u32)
    requires
        u32_at(m, a) == Some(w),
    ensures
        put32(put32(m, a, v), a, w) == m,
{
    reveal(put32);
    reveal(u32_at);
    let (vlo, vhi) = ((v % 0x1_0000) as u16, (v / 0x1_0000) as u16);
    let (wlo, whi) = ((w % 0x1_0000) as u16, (w / 0x1_0000) as u16);
    let b = off(a, 2);
    let m1 = put16(m, a, vlo);
    let m2 = put16(m1, b, vhi);
    let m3 = put16(m2, a, wlo);
    lemma_put16_frame(m, a, vlo);
    assert forall|x: u64| #[trigger] inside(x, b, 2) implies u8_at(m, x) == u8_at(m1, x) by {
        assert(!inside(x, a, 2));
    }
    lemma_agree16(m, m1, b);
    // the two stores to the lower half commute with the store to the upper half
    assert(m3 =~= put16(put16(m1, a, wlo), b, vhi)) by {
        reveal(put16);
    }
    lemma_restore16(m, a, vlo, wlo);
    lemma_restore16(m, b, vhi, whi);
}

/// Storing a value and then the value that was there before restores memory.
pub proof fn lemma_restore64(m: Bytes, a: u64, v: u64, w: u64)
    requires
        u64_at(m, a) == Some(w),
    ensures
        put64(put64(m, a, v), a, w) == m,
{
    reveal(put64);
    reveal(u64_at);
    let (vlo, vhi) = ((v % 0x1_0000_0000) as u32, (v / 0x1_0000_0000) as u32);
    let (wlo, whi) = ((w % 0x1_0000_0000) as u32, (w / 0x1_0000_0000) as u32);
    let b = off(a, 4);
    let m1 = put32(m, a, vlo);
    let m2 = put32(m1, b, vhi);
    let m3 = put32(m2, a, wlo);
    lemma_put32_frame(m, a, vlo);
    assert forall|x: u64| #[trigger] inside(x, b, 4) implies u8_at(m, x) == u8_at(m1, x) by {
        assert(!inside(x, a, 4));
    }
    lemma_agree32(m, m1, b);
    // the two stores to the lower half commute with the store to the upper half
    assert(m3 =~= put32(put32(m1, a, wlo), b, vhi)) by {
        reveal(put32);
        reveal(put16);
    }
    lemma_restore32(m, a, vlo, wlo);
    lemma_restore32(m, b, vhi, whi);
}

/// A row of stores ends with the first one that does not land.
pub proof fn lemma_put_all_stops(m: Bytes, row: Seq<Put>, k: int)
    requires
        0 <= k <= row.len(),
        !put_all(m, row.take(k)).1,
    ensures
        put_all(m, row) == put_all(m, row.take(k)),
    decreases row.len() - k,
{
    if k < row.len() {
        let t = row.take(k + 1);
        assert(t.drop_last() =~= row.take(k));
        lemma_put_all_stops(m, row, k + 1);
    } else {
        assert(row.take(k) =~= row);
    }
}

/// What the cells hold after a run of bytes was stored: the bytes of the run, and elsewhere
/// what they held before.
pub proof fn lemma_put_bytes(m: Bytes, a: u64, s: Seq<u8>, x: u64)
    requires
        s.len() <= 0x1_0000_0000,
    ensures
        u8_at(put_bytes(m, a, s), x) == if dist(a, x) < s.len() {
            Some(s[dist(a, x)])
        } else {
            u8_at(m, x)
        },
    decreases s.len(),
{
    if s.len() > 0 {
        lemma_put_bytes(m, a, s.drop_last(), x);
        let i = s.len() - 1;
        let e = elem(a, i, 1);
        assert(dist(a, e) == i) by {
            assert(e == (a + i) % 0x1_0000_0000_0000_0000);
        }
        if x == e {
        } else {
            assert(dist(a, x) != i) by {
                assert(x == (a + dist(a, x)) % 0x1_0000_0000_0000_0000);
            }
        }
    }
}

/// A stored run of bytes is read back, from its start on.
pub proof fn lemma_put_bytes_read(m: Bytes, a: u64, s: Seq<u8>, k: nat)
    requires
        s.len() <= 0x1_0000_0000,
        k <= s.len(),
    ensures
        bytes_at(put_bytes(m, a, s), a, k) == Some(s.take(k as int)),
{
    let m1 = put_bytes(m, a, s);
    assert forall|i: int| 0 <= i < k implies m1.dom().contains(#[trigger] elem(a, i, 1))
        && m1[elem(a, i, 1)] == s[i] by {
        lemma_put_bytes(m, a, s, elem(a, i, 1));
    }
    assert(bytes_at(m1, a, k)->0 =~= s.take(k as int));
}

/// A run of bytes that lies apart from a stored one is not changed.
pub proof fn lemma_put_bytes_apart(m: Bytes, a: u64, s: Seq<u8>, b: u64, k: nat)
    requires
        s.len() <= 0x1_0000_0000,
        k <= 0x1_0000_0000,
        apart(a, s.len() as int, b, k as int),
    ensures
        bytes_at(put_bytes(m, a, s), b, k) == bytes_at(m, b, k),
{
    let m1 = put_bytes(m, a, s);
    assert forall|i: int| 0 <= i < k implies u8_at(m1, #[trigger] elem(b, i, 1)) == u8_at(
        m,
        elem(b, i, 1),
    ) by {
        let e = elem(b, i, 1);
        lemma_put_bytes(m, a, s, e);
        assert(dist(b, e) == i);
        assert(inside(e, b, k as int));
        lemma_apart(b, k as int, a, s.len() as int);
    }
    if bytes_at(m, b, k) is Some {
        assert forall|i: int| 0 <= i < k implies m1.dom().contains(#[trigger] elem(b, i, 1)) by {
            assert(u8_at(m, elem(b, i, 1)) is Some);
        }
        assert(bytes_at(m1, b, k)->0 =~= bytes_at(m, b, k)->0);
    } else {
        let j = choose|j: int| 0 <= j < k && !m.dom().contains(#[trigger] elem(b, j, 1));
        assert(u8_at(m1, elem(b, j, 1)) is None);
    }
}

/// A store makes an earlier store to the same place forgotten.
pub proof fn lemma_overwrite32(m: Bytes, a: u64, v: u32, w: u32)
    ensures
        put32(put32(m, a, v), a, w) == put32(m, a, w),
{
    reveal(put32);
    reveal(put16);
    assert(put32(put32(m, a, v), a, w) =~= put32(m, a, w));
}

/// Where a store goes, and how many bytes it takes.
pub open spec fn put_place(p: Put) -> (u64, int) {
    match p {
        Put::Byte(at, v) => (at, 1),
        Put::Word(at, v) => (at, 4),
        Put::Long(at, v) => (at, 8),
    }
}

/// The value of a store stands at its place.
pub open spec fn put_stands(m: Bytes, p: Put) -> bool {
    match p {
        Put::Byte(at, v) => u8_at(m, at) == Some(v),
        Put::Word(at, v) => u32_at(m, at) == Some(v),
        Put::Long(at, v) => u64_at(m, at) == Some(v),
    }
}

proof fn lemma_put_one(m: Bytes, p: Put)
    requires
        put_one(m, p).1,
    ensures
        put_stands(put_one(m, p).0, p),
        forall|x: u64|
            !inside(x, put_place(p).0, put_place(p).1) ==> #[trigger] u8_at(put_one(m, p).0, x)
                == u8_at(m, x),
{
    match p {
        Put::Byte(at, v) => {},
        Put::Word(at, v) => lemma_put32_frame(m, at, v),
        Put::Long(at, v) => lemma_put64_frame(m, at, v),
    }
}

/// After a row of stores that landed, every value of it stands at its place, where no later store
/// of the row overlaps it.
pub proof fn law_row_stands(m: Bytes, row: Seq<Put>, i: int)
    requires
        put_all(m, row).1,
        0 <= i < row.len(),
        forall|j: int|
            i < j < row.len() ==> apart(
                put_place(row[i]).0,
                put_place(row[i]).1,
                put_place(#[trigger] row[j]).0,
                put_place(row[j]).1,
            ),
    ensures
        put_stands(put_all(m, row).0, row[i]),
    decreases row.len(),
{
    let init = row.drop_last();
    let p = put_all(m, init);
    lemma_put_one(p.0, row.last());
    if i < row.len() - 1 {
        assert forall|j: int| i < j < init.len() implies apart(
            put_place(init[i]).0,
            put_place(init[i]).1,
            put_place(#[trigger] init[j]).0,
            put_place(init[j]).1,
        ) by {
            assert(init[j] == row[j]);
        }
        law_row_stands(m, init, i);
        let n = put_all(m, row).0;
        let (a, k) = put_place(row[i]);
        let (b, l) = put_place(row[row.len() - 1]);
        lemma_apart(a, k, b, l);
        assert(agree(n, p.0, a, k));
        match row[i] {
            Put::Byte(at, v) => {
                assert(inside(at, at, 1));
            },
            Put::Word(at, v) => lemma_agree32(n, p.0, at),
            Put::Long(at, v) => lemma_agree64(n, p.0, at),
        }
    }
}

/// Values stand in memory with their lowest byte first.
pub proof fn law_lowest_byte_first(m: Bytes, a: u64)
    ensures
        u16_at(m, a) matches Some(v) ==> u8_at(m, a) == Some((v % 256) as u8) && u8_at(m, off(a, 1))
            == Some((v / 256) as u8),
        u32_at(m, a) matches Some(v) ==> u16_at(m, a) == Some((v % 65536) as u16) && u16_at(
            m,
            off(a, 2),
        ) == Some((v / 65536) as u16),
        u64_at(m, a) matches Some(v) ==> u32_at(m, a) == Some((v % 0x1_0000_0000) as u32) && u32_at(
            m,
            off(a, 4),
        ) == Some((v / 0x1_0000_0000) as u32),
{
    reveal(u16_at);
    reveal(u32_at);
    reveal(u64_at);
}

/// A pattern with its highest bit set stands for a negative number, the pattern less the number of
/// all patterns, and every other pattern for itself; a signed number and its pattern give each
/// other back.
pub proof fn law_signed_patterns(a: u8, b: u16, c: u32, x: i8, y: i16, z: i32)
    ensures
        signed8(a) == (if a < 128 {
            a as int
        } else {
            a - 256
        }),
        signed16(b) == (if b < 32768 {
            b as int
        } else {
            b - 65536
        }),
        signed32(c) == (if c < 0x8000_0000 {
            c as int
        } else {
            c - 0x1_0000_0000
        }),
        signed8(pattern8(x)) == x,
        signed16(pattern16(y)) == y,
        signed32(pattern32(z)) == z,
{
}

/// Addresses wrap at the end of memory: going on and back by the same distance leads to where one
/// was, and element `i` of a row stands `i` times the stride behind its start.
pub proof fn law_addresses_wrap(a: u64, n: u64, i: int, stride: int)
    requires
        0 <= i,
        0 <= stride,
        i * stride <= u64::MAX,
    ensures
        back(off(a, n), n) == a,
        off(back(a, n), n) == a,
        off(a, n) as int == (a + n) % 0x1_0000_0000_0000_0000,
        elem(a, 0, stride) == a,
        elem(a, i, stride) == off(a, (i * stride) as u64),
{
    let d = i * stride;
    assert(0 <= d) by (nonlinear_arith)
        requires
            d == i * stride,
            0 <= i,
            0 <= stride,
    ;
    assert(0 * stride == 0);
}

} // verus!
