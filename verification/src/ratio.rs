//! Ratios of two levels as fixed-point numbers, in millionths.

use vstd::prelude::*;

verus! {

/// How many units of a fixed-point ratio make up one.
pub const RATIO_ONE: u64 = 1_000_000;

/// `num / den` in millionths, rounded down.
pub open spec fn spec_millionths(num: int, den: int) -> int
    recommends
        den > 0,
{
    (num * 1_000_000) / den
}

/// The distance between two levels.
pub open spec fn spec_abs_diff(a: int, b: int) -> int {
    if a >= b {
        a - b
    } else {
        b - a
    }
}

/// `num / den` in millionths, rounded down.
pub fn millionths(num: u32, den: u32) -> (r: u64)
    requires
        den > 0,
    ensures
        r == spec_millionths(num as int, den as int),
{
    let scaled: u64 = (num as u64) * RATIO_ONE;
    scaled / (den as u64)
}

/// The distance between two levels.
pub fn abs_diff(a: u32, b: u32) -> (r: u32)
    ensures
        r == spec_abs_diff(a as int, b as int),
{
    if a >= b {
        a - b
    } else {
        b - a
    }
}

/// A ratio is zero exactly when its numerator is smaller than one millionth
/// of the denominator, and it never exceeds the scaled numerator.
pub proof fn lemma_millionths_bounds(num: int, den: int)
    requires
        0 <= num,
        0 < den,
    ensures
        0 <= spec_millionths(num, den) <= num * 1_000_000,
        num == 0 ==> spec_millionths(num, den) == 0,
        num == den ==> spec_millionths(num, den) == 1_000_000,
{
    let n = num * 1_000_000;
    assert(0 <= n / den <= n) by (nonlinear_arith)
        requires
            0 <= n,
            0 < den,
    ;
    if num == den {
        assert((den * 1_000_000) / den == 1_000_000) by (nonlinear_arith)
            requires
                0 < den,
        ;
    }
}

} // verus!
