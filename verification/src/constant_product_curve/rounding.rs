//! Division that rounds up, and the facts about it that the curve rests on.

use vstd::arithmetic::div_mod::lemma_fundamental_div_mod;
use vstd::arithmetic::div_mod::lemma_mod_bound;
use vstd::prelude::*;

verus! {

/// The quotient of `a` by `b`, rounded up: for `b > 0` the least `q` with
/// `q * b >= a`.
pub open spec fn div_ceil(a: int, b: int) -> int {
    if a % b == 0 {
        a / b
    } else {
        a / b + 1
    }
}

/// `div_ceil(a, b)` reaches `a` when multiplied back, and nothing smaller does.
pub proof fn lemma_div_ceil_bounds(a: int, b: int)
    requires
        b > 0,
    ensures
        div_ceil(a, b) * b >= a,
        (div_ceil(a, b) - 1) * b < a,
{
    lemma_fundamental_div_mod(a, b);
    lemma_mod_bound(a, b);
    let q = a / b;
    let r = a % b;
    assert((q + 1) * b == q * b + b && (q - 1) * b == q * b - b && q * b == b * q)
        by (nonlinear_arith);
}

/// Any `q` with `q * b >= a` is at least `div_ceil(a, b)`.
pub proof fn lemma_div_ceil_least(a: int, b: int, q: int)
    requires
        b > 0,
        q * b >= a,
    ensures
        div_ceil(a, b) <= q,
{
    lemma_div_ceil_bounds(a, b);
    let c = div_ceil(a, b);
    assert(c <= q) by (nonlinear_arith)
        requires
            b > 0,
            (c - 1) * b < a,
            q * b >= a,
    ;
}

/// A dividend that is not negative has a rounded-up quotient that is not
/// negative, and a positive one a positive quotient.
pub proof fn lemma_div_ceil_sign(a: int, b: int)
    requires
        b > 0,
        a >= 0,
    ensures
        div_ceil(a, b) >= 0,
        a > 0 ==> div_ceil(a, b) >= 1,
        a == 0 ==> div_ceil(a, b) == 0,
{
    lemma_div_ceil_bounds(a, b);
    let c = div_ceil(a, b);
    assert(c >= 0) by (nonlinear_arith)
        requires
            b > 0,
            a >= 0,
            c * b >= a,
            (c - 1) * b < a,
    ;
    assert(a > 0 ==> c >= 1) by (nonlinear_arith)
        requires
            b > 0,
            c * b >= a,
            c >= 0,
    ;
    assert(a == 0 ==> c == 0) by (nonlinear_arith)
        requires
            b > 0,
            c >= 0,
            (c - 1) * b < a,
    ;
}

/// Divides `a` by `b` and rounds up.
pub(crate) fn div_ceil_u128(a: u128, b: u128) -> (q: u128)
    requires
        b > 0,
    ensures
        q == div_ceil(a as int, b as int),
{
    let q: u128 = a / b;
    let r: u128 = a % b;
    if r == 0 {
        q
    } else {
        proof {
            lemma_fundamental_div_mod(a as int, b as int);
            assert(q < u128::MAX) by (nonlinear_arith)
                requires
                    a == b * q + r,
                    0 < r < b,
                    a <= u128::MAX,
            ;
        }
        q + 1
    }
}

} // verus!
