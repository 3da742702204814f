//! IEEE-754 values as bit patterns.
//!
//! The engine reads and writes floats of the game without computing with them: it compares
//! them, tests them for being finite, flips their sign. All of that is exact on the bit
//! pattern, which is how the engine carries a float: a `u32` for a single, a `u64` for a
//! double.

use vstd::prelude::*;

verus! {

/// Bit pattern of `1.0f32`.
pub const ONE: u32 = 0x3f80_0000;

/// A single-precision pattern with its sign bit cleared.
pub open spec fn magnitude32(b: u32) -> u32 {
    if b < 0x8000_0000 {
        b
    } else {
        (b - 0x8000_0000) as u32
    }
}

/// A double-precision pattern with its sign bit cleared.
pub open spec fn magnitude64(b: u64) -> u64 {
    if b < 0x8000_0000_0000_0000 {
        b
    } else {
        (b - 0x8000_0000_0000_0000) as u64
    }
}

/// The pattern stands for not-a-number.
pub open spec fn nan32(b: u32) -> bool {
    magnitude32(b) > 0x7f80_0000
}

/// The pattern stands for not-a-number.
pub open spec fn nan64(b: u64) -> bool {
    magnitude64(b) > 0x7ff0_0000_0000_0000
}

/// The pattern stands for a finite number.
pub open spec fn finite32(b: u32) -> bool {
    magnitude32(b) < 0x7f80_0000
}

/// Where a number stands on the line of single-precision numbers. Both zeros stand at 0.
pub open spec fn rank32(b: u32) -> int {
    if b < 0x8000_0000 {
        b as int
    } else {
        0x8000_0000 - b
    }
}

/// Where a number stands on the line of double-precision numbers. Both zeros stand at 0.
pub open spec fn rank64(b: u64) -> int {
    if b < 0x8000_0000_0000_0000 {
        b as int
    } else {
        0x8000_0000_0000_0000 - b
    }
}

/// `x < y` on single-precision patterns: false whenever either is not a number.
pub open spec fn less32(x: u32, y: u32) -> bool {
    !nan32(x) && !nan32(y) && rank32(x) < rank32(y)
}

/// `x <= y` on single-precision patterns: false whenever either is not a number.
pub open spec fn at_most32(x: u32, y: u32) -> bool {
    !nan32(x) && !nan32(y) && rank32(x) <= rank32(y)
}

/// `x < y` on double-precision patterns: false whenever either is not a number.
pub open spec fn less64(x: u64, y: u64) -> bool {
    !nan64(x) && !nan64(y) && rank64(x) < rank64(y)
}

/// `-x` on single-precision patterns.
pub open spec fn negated32(b: u32) -> u32 {
    if b < 0x8000_0000 {
        (b + 0x8000_0000) as u32
    } else {
        (b - 0x8000_0000) as u32
    }
}

/// `x` held between `lo` and `hi`; not-a-number stays what it is.
pub open spec fn clamped64(x: u64, lo: u64, hi: u64) -> u64 {
    if less64(x, lo) {
        lo
    } else if less64(hi, x) {
        hi
    } else {
        x
    }
}

/// The greater of two numbers; a number wins over not-a-number.
pub open spec fn greater64(x: u64, y: u64) -> u64 {
    if nan64(x) || less64(x, y) {
        y
    } else {
        x
    }
}

/// The lesser of two numbers; a number wins over not-a-number.
pub open spec fn lesser64(x: u64, y: u64) -> u64 {
    if nan64(x) || less64(y, x) {
        y
    } else {
        x
    }
}

/// `x` held between `lo` and `hi`; not-a-number stays what it is.
pub open spec fn clamped32(x: u32, lo: u32, hi: u32) -> u32 {
    if less32(x, lo) {
        lo
    } else if less32(hi, x) {
        hi
    } else {
        x
    }
}

/// The greater of two numbers; a number wins over not-a-number.
pub open spec fn greater32(x: u32, y: u32) -> u32 {
    if nan32(x) || less32(x, y) {
        y
    } else {
        x
    }
}

/// The lesser of two numbers; a number wins over not-a-number.
pub open spec fn lesser32(x: u32, y: u32) -> u32 {
    if nan32(x) || less32(y, x) {
        y
    } else {
        x
    }
}

/// Absolute value of a single-precision pattern.
pub fn abs32(b: u32) -> (r: u32)
    ensures
        r == magnitude32(b),
{
    if b < 0x8000_0000 {
        b
    } else {
        b - 0x8000_0000
    }
}

fn abs64(b: u64) -> (r: u64)
    ensures
        r == magnitude64(b),
{
    if b < 0x8000_0000_0000_0000 {
        b
    } else {
        b - 0x8000_0000_0000_0000
    }
}

/// Negate a single-precision pattern.
pub fn neg32(b: u32) -> (r: u32)
    ensures
        r == negated32(b),
{
    if b < 0x8000_0000 {
        b + 0x8000_0000
    } else {
        b - 0x8000_0000
    }
}

/// Whether a single-precision pattern is not a number.
pub fn is_nan32(b: u32) -> (r: bool)
    ensures
        r == nan32(b),
{
    abs32(b) > 0x7f80_0000
}

/// Whether a single-precision pattern is finite.
pub fn is_finite32(b: u32) -> (r: bool)
    ensures
        r == finite32(b),
{
    abs32(b) < 0x7f80_0000
}

fn rank(b: u32) -> (r: i64)
    ensures
        r == rank32(b),
{
    if b < 0x8000_0000 {
        b as i64
    } else {
        0x8000_0000 - b as i64
    }
}

/// `x < y` on single-precision patterns.
pub fn lt32(x: u32, y: u32) -> (r: bool)
    ensures
        r == less32(x, y),
{
    !is_nan32(x) && !is_nan32(y) && rank(x) < rank(y)
}

/// `x <= y` on single-precision patterns.
pub fn le32(x: u32, y: u32) -> (r: bool)
    ensures
        r == at_most32(x, y),
{
    !is_nan32(x) && !is_nan32(y) && rank(x) <= rank(y)
}

/// `x < y` on double-precision patterns.
pub fn lt64(x: u64, y: u64) -> (r: bool)
    ensures
        r == less64(x, y),
{
    if abs64(x) > 0x7ff0_0000_0000_0000 || abs64(y) > 0x7ff0_0000_0000_0000 {
        return false;
    }
    let neg_x = x >= 0x8000_0000_0000_0000;
    let neg_y = y >= 0x8000_0000_0000_0000;
    if neg_x {
        if neg_y {
            abs64(y) < abs64(x)
        } else {
            abs64(x) > 0 || abs64(y) > 0
        }
    } else if neg_y {
        false
    } else {
        x < y
    }
}

/// Whether a double-precision pattern is not a number.
pub fn is_nan64(b: u64) -> (r: bool)
    ensures
        r == nan64(b),
{
    abs64(b) > 0x7ff0_0000_0000_0000
}

/// Hold `x` between `lo` and `hi`.
pub fn clamp64(x: u64, lo: u64, hi: u64) -> (r: u64)
    ensures
        r == clamped64(x, lo, hi),
{
    if lt64(x, lo) {
        lo
    } else if lt64(hi, x) {
        hi
    } else {
        x
    }
}

/// The greater of two numbers.
pub fn max64(x: u64, y: u64) -> (r: u64)
    ensures
        r == greater64(x, y),
{
    if is_nan64(x) || lt64(x, y) {
        y
    } else {
        x
    }
}

/// The lesser of two numbers.
pub fn min64(x: u64, y: u64) -> (r: u64)
    ensures
        r == lesser64(x, y),
{
    if is_nan64(x) || lt64(y, x) {
        y
    } else {
        x
    }
}

/// Hold `x` between `lo` and `hi`.
pub fn clamp32(x: u32, lo: u32, hi: u32) -> (r: u32)
    ensures
        r == clamped32(x, lo, hi),
{
    if lt32(x, lo) {
        lo
    } else if lt32(hi, x) {
        hi
    } else {
        x
    }
}

/// The greater of two numbers.
pub fn max32(x: u32, y: u32) -> (r: u32)
    ensures
        r == greater32(x, y),
{
    if is_nan32(x) || lt32(x, y) {
        y
    } else {
        x
    }
}

/// The lesser of two numbers.
pub fn min32(x: u32, y: u32) -> (r: u32)
    ensures
        r == lesser32(x, y),
{
    if is_nan32(x) || lt32(y, x) {
        y
    } else {
        x
    }
}

/// The order of single-precision numbers by their patterns: positive ones as their patterns are,
/// negative ones the other way round, negative ones below positive ones, the two zeros alike, and
/// what is no number below and above nothing.
pub proof fn law_order32(x: u32, y: u32, z: u32)
    ensures
        x < y <= 0x7f80_0000 ==> less32(x, y),
        0x8000_0000 <= x < y <= 0xff80_0000 ==> less32(y, x),
        0x8000_0000 < x <= 0xff80_0000 && y <= 0x7f80_0000 ==> less32(x, y),
        !less32(0, 0x8000_0000) && !less32(0x8000_0000, 0),
        nan32(x) ==> !less32(x, y) && !less32(y, x) && !at_most32(x, y) && !at_most32(y, x),
        less32(x, y) && less32(y, z) ==> less32(x, z),
        !less32(x, x),
        less32(x, y) <==> less32(negated32(y), negated32(x)),
        !nan32(x) && !nan32(y) ==> (at_most32(x, y) <==> !less32(y, x)),
        nan32(x) <==> 0x7f80_0000 < x < 0x8000_0000 || 0xff80_0000 < x,
        finite32(x) <==> x < 0x7f80_0000 || 0x8000_0000 <= x < 0xff80_0000,
{
}

/// The order of double-precision numbers by their patterns, in the same way.
pub proof fn law_order64(x: u64, y: u64, z: u64)
    ensures
        x < y <= 0x7ff0_0000_0000_0000 ==> less64(x, y),
        0x8000_0000_0000_0000 <= x < y <= 0xfff0_0000_0000_0000 ==> less64(y, x),
        0x8000_0000_0000_0000 < x <= 0xfff0_0000_0000_0000 && y <= 0x7ff0_0000_0000_0000 ==> less64(
            x,
            y,
        ),
        !less64(0, 0x8000_0000_0000_0000) && !less64(0x8000_0000_0000_0000, 0),
        nan64(x) ==> !less64(x, y) && !less64(y, x),
        less64(x, y) && less64(y, z) ==> less64(x, z),
        !less64(x, x),
        nan64(x) <==> 0x7ff0_0000_0000_0000 < x < 0x8000_0000_0000_0000 || 0xfff0_0000_0000_0000
            < x,
{
}

/// The lesser and the greater of two are one of them, and not above or below either; where the
/// first is no number, the second is taken.
pub proof fn law_lesser_greater(x: u32, y: u32, v: u64, w: u64)
    ensures
        lesser32(x, y) == x || lesser32(x, y) == y,
        !less32(x, lesser32(x, y)) && !less32(y, lesser32(x, y)),
        greater32(x, y) == x || greater32(x, y) == y,
        !less32(greater32(x, y), x) && !less32(greater32(x, y), y),
        nan32(x) ==> lesser32(x, y) == y && greater32(x, y) == y,
        lesser64(v, w) == v || lesser64(v, w) == w,
        !less64(v, lesser64(v, w)) && !less64(w, lesser64(v, w)),
        greater64(v, w) == v || greater64(v, w) == w,
        !less64(greater64(v, w), v) && !less64(greater64(v, w), w),
        nan64(v) ==> lesser64(v, w) == w && greater64(v, w) == w,
{
}

/// A limited number is within the limits, and is the number itself where that is within them.
pub proof fn law_limited(x: u32, lo: u32, hi: u32)
    requires
        !nan32(x),
        at_most32(lo, hi),
    ensures
        at_most32(lo, clamped32(x, lo, hi)),
        at_most32(clamped32(x, lo, hi), hi),
        at_most32(lo, x) && at_most32(x, hi) ==> clamped32(x, lo, hi) == x,
{
}

/// Negating twice gives the number back, and the magnitude of a number and of its opposite are the
/// same and not negative.
pub proof fn law_signs(x: u32)
    ensures
        negated32(negated32(x)) == x,
        negated32(x) != x,
        magnitude32(x) < 0x8000_0000,
        magnitude32(negated32(x)) == magnitude32(x),
        x < 0x8000_0000 ==> magnitude32(x) == x,
{
}

} // verus!
