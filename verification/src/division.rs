//! Facts about floor division of natural numbers, the only rounding the pool performs.

use vstd::prelude::*;

verus! {

/// The quotient is the largest multiple count that fits: `(x / d) * d <= x < (x / d + 1) * d`.
pub proof fn lemma_floor_bounds(x: nat, d: nat)
    requires
        d > 0,
    ensures
        (x / d) * d <= x,
        x < (x / d + 1) * d,
{
    assert((x / d) * d <= x && x < (x / d + 1) * d) by (nonlinear_arith)
        requires
            d > 0,
    ;
}

/// Any `q` with `q * d <= x` is at most the quotient.
pub proof fn lemma_quotient_at_least(x: nat, d: nat, q: nat)
    requires
        d > 0,
        q * d <= x,
    ensures
        q <= x / d,
{
    lemma_floor_bounds(x, d);
    assert(q < x / d + 1) by (nonlinear_arith)
        requires
            d > 0,
            q * d <= x,
            x < (x / d + 1) * d,
    ;
}

/// Any `q` with `x < q * d` lies strictly above the quotient.
pub proof fn lemma_quotient_below(x: nat, d: nat, q: nat)
    requires
        d > 0,
        x < q * d,
    ensures
        x / d < q,
{
    lemma_floor_bounds(x, d);
    assert(x / d < q) by (nonlinear_arith)
        requires
            d > 0,
            x < q * d,
            (x / d) * d <= x,
    ;
}

/// Fractions compare by cross-multiplication, and so do their floors:
/// `n1 / d1 <= n2 / d2` whenever `n1 * d2 <= n2 * d1`.
pub proof fn lemma_quotient_cross_monotone(n1: nat, d1: nat, n2: nat, d2: nat)
    requires
        d1 > 0,
        d2 > 0,
        n1 * d2 <= n2 * d1,
    ensures
        n1 / d1 <= n2 / d2,
{
    let q = n1 / d1;
    lemma_floor_bounds(n1, d1);
    assert(q * d2 <= n2) by (nonlinear_arith)
        requires
            d1 > 0,
            d2 > 0,
            q * d1 <= n1,
            n1 * d2 <= n2 * d1,
    ;
    lemma_quotient_at_least(n2, d2, q);
}

} // verus!
