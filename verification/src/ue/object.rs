//! The global object table.

use vstd::prelude::*;

use crate::memory::{Bytes, Memory, elem, elem_addr, i32_at, off, u64_at};
use crate::offsets::{
    ELEMENTS_PER_CHUNK, GUOBJECTARRAY, ITEM_STRIDE, UOA_NUMCHUNKS, UOA_NUMELEMENTS, UOA_OBJECTS,
};

verus! {

/// The number of object slots.
pub open spec fn element_count(m: Bytes, base: u64) -> Option<i32> {
    i32_at(m, off(off(base, GUOBJECTARRAY), UOA_NUMELEMENTS))
}

/// The number of allocated chunks.
pub open spec fn chunk_count(m: Bytes, base: u64) -> Option<i32> {
    i32_at(m, off(off(base, GUOBJECTARRAY), UOA_NUMCHUNKS))
}

/// The object in slot `i`: 0 where the table has none.
pub open spec fn slot_object(m: Bytes, base: u64, i: int) -> Option<u64> {
    if i < 0 {
        Some(0)
    } else {
        match u64_at(m, off(off(base, GUOBJECTARRAY), UOA_OBJECTS)) {
            None => None,
            Some(0) => Some(0),
            Some(chunks) => match chunk_count(m, base) {
                None => None,
                Some(n) => if i / ELEMENTS_PER_CHUNK as int >= n {
                    Some(0)
                } else {
                    match u64_at(m, elem(chunks, i / ELEMENTS_PER_CHUNK as int, 8)) {
                        None => None,
                        Some(0) => Some(0),
                        Some(chunk) => u64_at(
                            m,
                            elem(chunk, i % ELEMENTS_PER_CHUNK as int, ITEM_STRIDE as int),
                        ),
                    }
                },
            },
        }
    }
}

/// Number of object slots.
pub fn num_elements(m: &mut Memory, base: u64) -> (r: Option<i32>)
    ensures
        r == element_count(old(m)@, base),
        final(m)@ == old(m)@,
{
    m.read_i32(base.wrapping_add(GUOBJECTARRAY).wrapping_add(UOA_NUMELEMENTS))
}

/// Number of allocated chunks.
pub fn num_chunks(m: &mut Memory, base: u64) -> (r: Option<i32>)
    ensures
        r == chunk_count(old(m)@, base),
        final(m)@ == old(m)@,
{
    m.read_i32(base.wrapping_add(GUOBJECTARRAY).wrapping_add(UOA_NUMCHUNKS))
}

/// The object in slot `i` (0 if empty or out of range, `None` on a fault).
pub fn object_at(m: &mut Memory, base: u64, i: i32) -> (r: Option<u64>)
    ensures
        r == slot_object(old(m)@, base, i as int),
        final(m)@ == old(m)@,
{
    if i < 0 {
        return Some(0);
    }
    let chunks = m.read_u64(base.wrapping_add(GUOBJECTARRAY).wrapping_add(UOA_OBJECTS))?;
    if chunks == 0 {
        return Some(0);
    }
    let ci: u64 = i as u64 / ELEMENTS_PER_CHUNK;
    if ci as i32 >= num_chunks(m, base)? {
        return Some(0);
    }
    let chunk = m.read_u64(elem_addr(chunks, ci, 8))?;
    if chunk == 0 {
        return Some(0);
    }
    m.read_u64(elem_addr(chunk, i as u64 % ELEMENTS_PER_CHUNK, ITEM_STRIDE as u32))
}

/// The object table is cut into chunks of 65536 slots of 24 bytes each: object `k` of chunk `c`
/// stands 24 times `k` into it. A slot behind the last chunk is empty.
pub proof fn law_slots(m: Bytes, base: u64, c: int, k: int, chunks: u64, n: i32)
    requires
        0 <= c,
        0 <= k < 65536,
        u64_at(m, off(off(base, 0x0d0b_1770), 0x10)) == Some(chunks),
        i32_at(m, off(off(base, 0x0d0b_1770), 0x2c)) == Some(n),
        chunks != 0,
    ensures
        c >= n ==> slot_object(m, base, 65536 * c + k) == Some(0u64),
        c < n ==> (u64_at(m, elem(chunks, c, 8)) matches Some(chunk) ==> slot_object(
            m,
            base,
            65536 * c + k,
        ) == if chunk == 0 {
            Some(0u64)
        } else {
            u64_at(m, elem(chunk, k, 24))
        }),
        element_count(m, base) == i32_at(m, off(off(base, 0x0d0b_1770), 0x24)),
{
    assert((65536 * c + k) / 65536 == c);
    assert((65536 * c + k) % 65536 == k);
}

} // verus!
