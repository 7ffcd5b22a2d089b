//! Zoom levels: the camera's height above the plane, rounded up to a power of two.
//!
//! The grid is spaced by the power of two at or above the zoom level, and a zoom
//! step away from the plane is taken only while that power still fits in a `u32`.
use vstd::prelude::*;
use vstd::arithmetic::power2::*;
use crate::scalar::Scalar;

verus! {

/// The largest zoom level whose power of two fits in a `u32`: two to the 31st.
pub const TOP_LEVEL: u32 = 0x8000_0000;

/// The least `k` with `n <= 2^k`.
pub open spec fn log2_ceil(n: nat) -> nat
    decreases n,
{
    if n <= 1 {
        0
    } else {
        1 + log2_ceil((n + 1) / 2)
    }
}

/// The least power of two that is not below `n`; 1 for 0.
pub open spec fn next_power_of_two(n: nat) -> nat {
    pow2(log2_ceil(n))
}

/// `next_power_of_two`, where it fits in a `u32`.
pub open spec fn checked_power(n: u32) -> Option<u32> {
    if next_power_of_two(n as nat) <= u32::MAX {
        Some(next_power_of_two(n as nat) as u32)
    } else {
        None
    }
}

/// `u32::checked_next_power_of_two` of the standard library. Its documentation
/// promises the smallest power of two greater than or equal to the number, in
/// `Some`, and `None` where that power is above the largest `u32`. Taken on trust.
pub assume_specification[ u32::checked_next_power_of_two ](n: u32) -> (power: Option<u32>)
    ensures
        power == checked_power(n),
;

/// `log2_ceil(n)` is an exponent whose power reaches `n`, and the one before it
/// does not.
pub proof fn lemma_log2_ceil_bounds(n: nat)
    ensures
        n <= pow2(log2_ceil(n)),
        log2_ceil(n) > 0 ==> pow2((log2_ceil(n) - 1) as nat) < n,
    decreases n,
{
    lemma2_to64();
    if n > 1 {
        let m = (n + 1) / 2;
        lemma_log2_ceil_bounds(m);
        lemma_pow2_unfold(log2_ceil(n));
        if log2_ceil(m) > 0 {
            lemma_pow2_unfold(log2_ceil(m));
        }
    }
}

/// No smaller exponent reaches `n`: `next_power_of_two(n)` is the least power of
/// two that is not below `n`.
pub proof fn lemma_next_power_of_two_is_least(n: nat, k: nat)
    requires
        n <= pow2(k),
    ensures
        n <= next_power_of_two(n),
        next_power_of_two(n) <= pow2(k),
{
    lemma_log2_ceil_bounds(n);
    if k < log2_ceil(n) {
        if k < log2_ceil(n) - 1 {
            lemma_pow2_strictly_increases(k, (log2_ceil(n) - 1) as nat);
        }
    } else if log2_ceil(n) < k {
        lemma_pow2_strictly_increases(log2_ceil(n), k);
    }
}

/// The power of two above a number fits in a `u32` exactly up to two to the 31st.
pub proof fn lemma_power_fits(n: u32)
    ensures
        checked_power(n) is Some <==> n <= TOP_LEVEL,
{
    lemma2_to64();
    lemma_log2_ceil_bounds(n as nat);
    if n <= TOP_LEVEL {
        lemma_next_power_of_two_is_least(n as nat, 31);
    } else {
        if log2_ceil(n as nat) < 32 {
            if log2_ceil(n as nat) < 31 {
                lemma_pow2_strictly_increases(log2_ceil(n as nat), 31);
            }
        } else if log2_ceil(n as nat) > 32 {
            lemma_pow2_strictly_increases(32, log2_ceil(n as nat));
        }
    }
}

/// Doubling a zoom level of at least one doubles its power of two, and so the
/// spacing of the grid.
pub proof fn lemma_double_level_doubles_power(n: nat)
    requires
        n >= 1,
    ensures
        next_power_of_two(2 * n) == 2 * next_power_of_two(n),
{
    assert((2 * n + 1) / 2 == n);
    lemma_pow2_unfold(log2_ceil(2 * n));
}

/// The zoom level that a camera at height `eye_z` is drawn at: the power of two at
/// or above the whole part of `eye_z`, or `None` where that power does not fit.
pub fn zoom_level(eye_z: Scalar) -> (level: Option<u32>)
    ensures
        level == checked_power(eye_z.to_u32_spec()),
{
    eye_z.to_u32().checked_next_power_of_two()
}

} // verus!
