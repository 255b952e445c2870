//! Binary64 values given by their IEEE 754 bit patterns: which ones are
//! NaN or finite, and how they compare.
use vstd::prelude::*;

verus! {

/// The magnitude bits of a binary64 pattern (the sign bit cleared).
pub open spec fn float_magnitude(bits: u64) -> int {
    bits as int % 0x8000_0000_0000_0000
}

/// The pattern encodes NaN.
pub open spec fn float_is_nan(bits: u64) -> bool {
    float_magnitude(bits) > 0x7FF0_0000_0000_0000
}

/// The pattern encodes a finite number (neither infinite nor NaN).
pub open spec fn float_is_finite(bits: u64) -> bool {
    float_magnitude(bits) < 0x7FF0_0000_0000_0000
}

/// IEEE 754 equality of two binary64 patterns: NaN equals nothing, the two
/// zeros are equal, and otherwise equal numbers have equal patterns.
pub open spec fn float_equal(x: u64, y: u64) -> bool {
    &&& !float_is_nan(x)
    &&& !float_is_nan(y)
    &&& (x == y || (float_magnitude(x) == 0 && float_magnitude(y) == 0))
}

/// The position of a non-NaN pattern on the number line: the magnitude,
/// negated when the sign bit is set, so that both zeros sit at 0.
pub open spec fn float_order_key(bits: u64) -> int {
    if bits as int >= 0x8000_0000_0000_0000 {
        -float_magnitude(bits)
    } else {
        float_magnitude(bits)
    }
}

/// IEEE 754 `x < y`: false when either is NaN.
pub open spec fn float_less(x: u64, y: u64) -> bool {
    !float_is_nan(x) && !float_is_nan(y) && float_order_key(x) < float_order_key(y)
}

/// IEEE 754 `x <= y`: false when either is NaN.
pub open spec fn float_less_eq(x: u64, y: u64) -> bool {
    !float_is_nan(x) && !float_is_nan(y) && float_order_key(x) <= float_order_key(y)
}

/// Decides IEEE equality of two binary64 patterns.
pub fn float_eq(x: u64, y: u64) -> (r: bool)
    ensures
        r == float_equal(x, y),
{
    let mx = x % 0x8000_0000_0000_0000;
    let my = y % 0x8000_0000_0000_0000;
    mx <= 0x7FF0_0000_0000_0000 && my <= 0x7FF0_0000_0000_0000 && (x == y || (mx == 0 && my
        == 0))
}

/// Decides IEEE `x < y` on two binary64 patterns.
pub fn float_lt(x: u64, y: u64) -> (r: bool)
    ensures
        r == float_less(x, y),
{
    let mx = x % 0x8000_0000_0000_0000;
    let my = y % 0x8000_0000_0000_0000;
    if mx > 0x7FF0_0000_0000_0000 || my > 0x7FF0_0000_0000_0000 {
        return false;
    }
    let negative_x = x >= 0x8000_0000_0000_0000;
    let negative_y = y >= 0x8000_0000_0000_0000;
    if !negative_x && !negative_y {
        mx < my
    } else if negative_x && negative_y {
        my < mx
    } else if negative_x {
        !(mx == 0 && my == 0)
    } else {
        false
    }
}

/// Decides IEEE `x <= y` on two binary64 patterns.
pub fn float_le(x: u64, y: u64) -> (r: bool)
    ensures
        r == float_less_eq(x, y),
{
    let mx = x % 0x8000_0000_0000_0000;
    let my = y % 0x8000_0000_0000_0000;
    if mx > 0x7FF0_0000_0000_0000 || my > 0x7FF0_0000_0000_0000 {
        return false;
    }
    let negative_x = x >= 0x8000_0000_0000_0000;
    let negative_y = y >= 0x8000_0000_0000_0000;
    if !negative_x && !negative_y {
        mx <= my
    } else if negative_x && negative_y {
        my <= mx
    } else if negative_x {
        true
    } else {
        mx == 0 && my == 0
    }
}

} // verus!
