//! Decoding of interned names.

use vstd::prelude::*;

use crate::memory::{Bytes, Memory, bytes_at, elem, elem_addr, off, u16_at, u32_at, u64_at, units_at};
use crate::offsets::{FNAMEPOOL, NP_BLOCKS, UO_NAME};
use crate::text::{from_utf16, from_utf8, utf16_text, utf8_lossy};

verus! {

/// The text of the pool entry at `entry`. The header's upper ten bits are the length and its
/// lowest bit tells UTF-16 from bytes; an entry with no plausible length reads as empty.
pub open spec fn entry_text(m: Bytes, entry: u64) -> Option<Seq<char>> {
    match u16_at(m, entry) {
        None => None,
        Some(header) => {
            let len = (header / 64) as nat;
            if len == 0 || len > 1024 {
                Some(Seq::empty())
            } else if header % 2 == 1 {
                match units_at(m, off(entry, 2), len) {
                    Some(w) => Some(utf16_text(w)),
                    None => None,
                }
            } else {
                match bytes_at(m, off(entry, 2), len) {
                    Some(b) => Some(utf8_lossy(b)),
                    None => None,
                }
            }
        },
    }
}

/// Address of the slot that holds the pointer to the pool block that name `id` lies in.
pub open spec fn block_slot(base: u64, id: u32) -> u64 {
    elem(off(off(base, FNAMEPOOL), NP_BLOCKS), (id / 0x1_0000) as int, 8)
}

/// The text of name `id`: empty if its block does not exist, `None` on a fault.
pub open spec fn name_text(m: Bytes, base: u64, id: u32) -> Option<Seq<char>> {
    match u64_at(m, block_slot(base, id)) {
        None => None,
        Some(0) => Some(Seq::empty()),
        Some(block) => entry_text(m, elem(block, (id % 0x1_0000) as int, 2)),
    }
}

/// The name of the object at `obj`: empty for a null object.
pub open spec fn object_name(m: Bytes, base: u64, obj: u64) -> Option<Seq<char>> {
    if obj == 0 {
        Some(Seq::empty())
    } else {
        match u32_at(m, off(obj, UO_NAME)) {
            None => None,
            Some(id) => name_text(m, base, id),
        }
    }
}

fn entry(m: &mut Memory, at: u64) -> (r: Option<String>)
    ensures
        r is Some == entry_text(old(m)@, at) is Some,
        r matches Some(s) ==> entry_text(old(m)@, at) == Some(s@),
        final(m)@ == old(m)@,
{
    let header = m.read_u16(at)?;
    let len: usize = (header / 64) as usize;
    if len == 0 || len > 1024 {
        return Some(String::new());
    }
    let data = at.wrapping_add(2);
    if header % 2 == 1 {
        let w = m.read_units(data, len)?;
        Some(from_utf16(&w))
    } else {
        let b = m.read_bytes(data, len)?;
        Some(from_utf8(&b))
    }
}

/// Decode a name id (empty on any inconsistency, `None` on a fault).
pub fn name_by_id(m: &mut Memory, base: u64, id: u32) -> (r: Option<String>)
    ensures
        r is Some == name_text(old(m)@, base, id) is Some,
        r matches Some(s) ==> name_text(old(m)@, base, id) == Some(s@),
        final(m)@ == old(m)@,
{
    let blocks = base.wrapping_add(FNAMEPOOL).wrapping_add(NP_BLOCKS);
    let block = m.read_u64(elem_addr(blocks, (id / 0x1_0000) as u64, 8))?;
    if block == 0 {
        return Some(String::new());
    }
    entry(m, elem_addr(block, (id % 0x1_0000) as u64, 2))
}

/// The name of the object at `obj` (empty for null, `None` on a fault).
pub fn obj_name(m: &mut Memory, base: u64, obj: u64) -> (r: Option<String>)
    ensures
        r is Some == object_name(old(m)@, base, obj) is Some,
        r matches Some(s) ==> object_name(old(m)@, base, obj) == Some(s@),
        final(m)@ == old(m)@,
{
    if obj == 0 {
        return Some(String::new());
    }
    let id = m.read_u32(obj.wrapping_add(UO_NAME))?;
    name_by_id(m, base, id)
}

/// A name's entry begins with a 16-bit header: the length from bit 6 on, and in bit 0 whether the
/// characters are wide. A length of 0 or above 1024 reads as empty.
pub proof fn law_name_headers(m: Bytes, entry: u64, len: int, wide: bool, mid: int)
    requires
        0 <= len < 1024,
        0 <= mid < 32,
        u16_at(m, entry) == Some((64 * len + 2 * mid + (if wide {
            1int
        } else {
            0
        })) as u16),
    ensures
        len == 0 ==> entry_text(m, entry) == Some(Seq::<char>::empty()),
        len > 0 && !wide ==> (bytes_at(m, off(entry, 2), len as nat) matches Some(b)
            ==> entry_text(m, entry) == Some(utf8_lossy(b))),
        len > 0 && wide ==> (units_at(m, off(entry, 2), len as nat) matches Some(w) ==> entry_text(
            m,
            entry,
        ) == Some(utf16_text(w))),
{
    let h = 64 * len + 2 * mid + (if wide {
        1int
    } else {
        0
    });
    assert(h / 64 == len);
    assert(h % 2 == (if wide {
        1int
    } else {
        0
    }));
}

/// A name's number is its block in the upper half and its place in the block, in steps of two
/// bytes, in the lower half.
pub proof fn law_name_places(m: Bytes, base: u64, block: u64, hi: int, lo: int)
    requires
        0 <= hi < 65536,
        0 <= lo < 65536,
        u64_at(m, elem(off(off(base, 0x0d40_ed80), 0x10), hi, 8)) == Some(block),
    ensures
        block == 0 ==> name_text(m, base, (65536 * hi + lo) as u32) == Some(Seq::<char>::empty()),
        block != 0 ==> name_text(m, base, (65536 * hi + lo) as u32) == entry_text(
            m,
            elem(block, lo, 2),
        ),
{
    let id = (65536 * hi + lo) as u32;
    assert(id / 0x1_0000 == hi);
    assert(id % 0x1_0000 == lo);
}

} // verus!
