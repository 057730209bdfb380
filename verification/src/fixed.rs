use vstd::prelude::*;

verus! {

/// The fixed-point unit: a length of 1 (half the width of the box), or one second.
pub const ONE: i64 = 1_000_000;

/// The product of two fixed-point numbers, rounded toward zero.
pub open spec fn scaled(a: int, b: int) -> int {
    if a * b >= 0 {
        (a * b) / (ONE as int)
    } else {
        -((-(a * b)) / (ONE as int))
    }
}

/// Rounding toward zero makes the product odd in its first factor.
pub proof fn lemma_scaled_negated(a: int, b: int)
    ensures
        scaled(-a, b) == -scaled(a, b),
{
    assert((-a) * b == -(a * b)) by (nonlinear_arith);
}

/// Computes the fixed-point product of `a` and `b`.
pub fn scale(a: i64, b: i64) -> (r: i128)
    ensures
        r == scaled(a as int, b as int),
        -0x4000_0000_0000_0000_0000_0000_0000_0000 <= r <= 0x4000_0000_0000_0000_0000_0000_0000_0000,
{
    let wide_a: i128 = a as i128;
    let wide_b: i128 = b as i128;
    assert(-0x4000_0000_0000_0000_0000_0000_0000_0000 <= wide_a * wide_b
        <= 0x4000_0000_0000_0000_0000_0000_0000_0000) by (nonlinear_arith)
        requires
            -0x8000_0000_0000_0000 <= wide_a <= 0x8000_0000_0000_0000,
            -0x8000_0000_0000_0000 <= wide_b <= 0x8000_0000_0000_0000,
    ;
    let product: i128 = wide_a * wide_b;
    if product >= 0 {
        let r: i128 = product / 1_000_000;
        assert(0 <= r <= product) by (nonlinear_arith)
            requires
                r == product / 1_000_000,
                product >= 0,
        ;
        r
    } else {
        let magnitude: i128 = -product;
        let q: i128 = magnitude / 1_000_000;
        assert(0 <= q <= magnitude) by (nonlinear_arith)
            requires
                q == magnitude / 1_000_000,
                magnitude >= 0,
        ;
        -q
    }
}

} // verus!
