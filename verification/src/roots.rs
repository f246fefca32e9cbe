//! Integer square roots, rounded down.

use vstd::prelude::*;
use crate::wide::{two_128, U256};

verus! {

/// Whether `r` is the square root of `x`, rounded down.
pub open spec fn is_floor_sqrt(r: nat, x: nat) -> bool {
    r * r <= x < (r + 1) * (r + 1)
}

/// The square root of `x`, rounded down.
pub open spec fn floor_sqrt(x: nat) -> nat {
    choose|r: nat| is_floor_sqrt(r, x)
}

/// Squaring keeps the order of natural numbers.
proof fn lemma_square_is_monotonic(a: nat, b: nat)
    requires
        a <= b,
    ensures
        a * a <= b * b,
{
    assert(a * a <= b * b) by (nonlinear_arith)
        requires
            a <= b,
    ;
}

/// A number has at most one rounded-down square root.
pub proof fn lemma_floor_sqrt_is_unique(a: nat, b: nat, x: nat)
    requires
        is_floor_sqrt(a, x),
        is_floor_sqrt(b, x),
    ensures
        a == b,
{
    if a < b {
        lemma_square_is_monotonic(a + 1, b);
    } else if b < a {
        lemma_square_is_monotonic(b + 1, a);
    }
}

/// Whatever rounds down to the square root of `x` is `floor_sqrt(x)`.
pub proof fn lemma_floor_sqrt_from_witness(r: nat, x: nat)
    requires
        is_floor_sqrt(r, x),
    ensures
        floor_sqrt(x) == r,
{
    lemma_floor_sqrt_is_unique(r, floor_sqrt(x), x);
}

/// The square root of `x`, rounded down.
pub fn isqrt(x: U256) -> (r: u128)
    ensures
        is_floor_sqrt(r as nat, x@),
        r == floor_sqrt(x@),
{
    let mut low: u128 = 0;
    let mut high: u128 = u128::MAX;
    proof {
        x.lemma_bounded();
        assert((high + 1) * (high + 1) == two_128() * two_128());
    }
    while low < high
        invariant
            low <= high,
            low * low <= x@,
            x@ < (high + 1) * (high + 1),
        decreases high - low,
    {
        let gap: u128 = high - low;
        let middle: u128 = low + gap / 2 + gap % 2;
        if U256::product(middle, middle).at_most(&x) {
            low = middle;
        } else {
            high = middle - 1;
        }
    }
    proof {
        lemma_floor_sqrt_from_witness(low as nat, x@);
    }
    low
}

} // verus!
