//! The fixed-point scale of the fractional quantities: texture
//! coordinates and light intensity.

use vstd::prelude::*;

verus! {

/// One, in fixed point: a quantity `q` stands for `q / FIXED_ONE`.
pub const FIXED_ONE: i32 = 0x1_0000;

/// A product is bounded by the product of the bounds of its factors.
pub proof fn lemma_mul_bound(a: int, b: int, bound_a: int, bound_b: int)
    requires
        -bound_a <= a <= bound_a,
        -bound_b <= b <= bound_b,
    ensures
        -(bound_a * bound_b) <= a * b <= bound_a * bound_b,
{
    assert(-(bound_a * bound_b) <= a * b <= bound_a * bound_b) by (nonlinear_arith)
        requires
            -bound_a <= a <= bound_a,
            -bound_b <= b <= bound_b,
    ;
}

} // verus!
