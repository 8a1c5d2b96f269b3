use vstd::prelude::*;

verus! {

// Numbers are IEEE-754 binary32 values, held as their bit patterns: the top
// bit is the sign, the other 31 the magnitude. Patterns whose magnitude lies
// above that of infinity are NaN. Apart from NaN, the values are ordered as
// their sign-magnitude patterns are, and the two zeros are equal.

pub open spec fn sign_bit() -> u32 {
    0x8000_0000
}

pub open spec fn infinity_bits() -> u32 {
    0x7f80_0000
}

/// The pattern without its sign.
pub open spec fn magnitude(b: u32) -> int {
    if b >= sign_bit() {
        b - sign_bit()
    } else {
        b as int
    }
}

pub open spec fn is_nan(b: u32) -> bool {
    magnitude(b) > infinity_bits()
}

/// The place of a value that is not NaN on the number line, with both zeros
/// at 0.
pub open spec fn ordinal(b: u32) -> int {
    if b >= sign_bit() {
        -magnitude(b)
    } else {
        magnitude(b)
    }
}

/// IEEE-754 equality: false when either is NaN; `-0 == +0`.
pub open spec fn num_eq(a: u32, b: u32) -> bool {
    !is_nan(a) && !is_nan(b) && ordinal(a) == ordinal(b)
}

/// IEEE-754 `a < b`: false when either is NaN.
pub open spec fn num_lt(a: u32, b: u32) -> bool {
    !is_nan(a) && !is_nan(b) && ordinal(a) < ordinal(b)
}

/// IEEE-754 `a <= b`: false when either is NaN.
pub open spec fn num_le(a: u32, b: u32) -> bool {
    !is_nan(a) && !is_nan(b) && ordinal(a) <= ordinal(b)
}

/// IEEE-754 negation flips the sign bit, of NaN too.
pub open spec fn negated(b: u32) -> u32 {
    if b >= sign_bit() {
        (b - sign_bit()) as u32
    } else {
        (b + sign_bit()) as u32
    }
}

fn ordinal_of(b: u32) -> (r: i64)
    ensures
        r == ordinal(b),
{
    if b >= 0x8000_0000 {
        -((b - 0x8000_0000) as i64)
    } else {
        b as i64
    }
}

fn nan(b: u32) -> (r: bool)
    ensures
        r == is_nan(b),
{
    let m = if b >= 0x8000_0000 {
        b - 0x8000_0000
    } else {
        b
    };
    m > 0x7f80_0000
}

pub fn number_equal(a: u32, b: u32) -> (r: bool)
    ensures
        r == num_eq(a, b),
{
    !nan(a) && !nan(b) && ordinal_of(a) == ordinal_of(b)
}

pub fn number_less(a: u32, b: u32) -> (r: bool)
    ensures
        r == num_lt(a, b),
{
    !nan(a) && !nan(b) && ordinal_of(a) < ordinal_of(b)
}

pub fn number_less_equal(a: u32, b: u32) -> (r: bool)
    ensures
        r == num_le(a, b),
{
    !nan(a) && !nan(b) && ordinal_of(a) <= ordinal_of(b)
}

pub fn negate(b: u32) -> (r: u32)
    ensures
        r == negated(b),
{
    if b >= 0x8000_0000 {
        b - 0x8000_0000
    } else {
        b + 0x8000_0000
    }
}

} // verus!
