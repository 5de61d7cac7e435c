use vstd::arithmetic::div_mod::{
    lemma_div_is_ordered, lemma_div_pos_is_pos, lemma_fundamental_div_mod,
    lemma_multiply_divide_le,
};
use vstd::arithmetic::mul::{lemma_mul_inequality, lemma_mul_is_commutative};
use vstd::prelude::*;

verus! {

/// Ceiling division on mathematical integers: the least integer at or above
/// the exact quotient of a by b.
pub open spec fn div_ceil(a: int, b: int) -> int
    recommends
        0 <= a,
        0 < b,
{
    if a % b == 0 {
        a / b
    } else {
        a / b + 1
    }
}

/// The ceiling quotient sits between the floor quotient and one above it.
pub proof fn lemma_div_ceil_bounds(a: int, b: int)
    requires
        0 <= a,
        0 < b,
    ensures
        a / b <= div_ceil(a, b) <= a / b + 1,
        0 <= div_ceil(a, b),
{
    lemma_div_pos_is_pos(a, b);
}

/// If a <= y * b then the ceiling quotient of a by b is at most y.
pub proof fn lemma_div_ceil_le(a: int, b: int, y: int)
    requires
        0 <= a,
        0 < b,
        a <= y * b,
    ensures
        div_ceil(a, b) <= y,
{
    lemma_fundamental_div_mod(a, b);
    lemma_mul_is_commutative(y, b);
    lemma_multiply_divide_le(a, b, y);
    if a % b != 0 && a / b == y {
        // Then a == b * y + a % b > y * b, contradicting a <= y * b.
        lemma_mul_is_commutative(b, a / b);
    }
}

/// Ceiling division is monotone in the numerator.
pub proof fn lemma_div_ceil_ordered(a1: int, a2: int, b: int)
    requires
        0 <= a1 <= a2,
        0 < b,
    ensures
        div_ceil(a1, b) <= div_ceil(a2, b),
{
    lemma_div_is_ordered(a1, a2, b);
    lemma_fundamental_div_mod(a1, b);
    lemma_fundamental_div_mod(a2, b);
    if a1 % b != 0 && a1 / b == a2 / b {
        // Both leave a remainder against the same quotient, so a2 does too.
        assert(a2 % b != 0);
    }
}

/// Ceiling division is antitone in the denominator.
pub proof fn lemma_div_ceil_ordered_by_denominator(a: int, b1: int, b2: int)
    requires
        0 <= a,
        0 < b1 <= b2,
    ensures
        div_ceil(a, b2) <= div_ceil(a, b1),
{
    vstd::arithmetic::div_mod::lemma_div_is_ordered_by_denominator(a, b1, b2);
    lemma_fundamental_div_mod(a, b1);
    lemma_fundamental_div_mod(a, b2);
    let q = a / b2;
    if a % b2 != 0 && q == a / b1 {
        // The remainder against the smaller denominator is no smaller.
        lemma_div_pos_is_pos(a, b2);
        lemma_mul_inequality(b1, b2, q);
        lemma_mul_is_commutative(b1, q);
        lemma_mul_is_commutative(b2, q);
        assert(a % b1 != 0);
    }
}

/// Floor division is superadditive in the numerator.
pub proof fn lemma_div_superadd(a: int, b: int, d: int)
    requires
        0 <= a,
        0 <= b,
        0 < d,
    ensures
        a / d + b / d <= (a + b) / d,
{
    let q = a / d + b / d;
    lemma_fundamental_div_mod(a, d);
    lemma_fundamental_div_mod(b, d);
    assert(d * q <= a + b) by (nonlinear_arith)
        requires
            a == d * (a / d) + a % d,
            b == d * (b / d) + b % d,
            a % d >= 0,
            b % d >= 0,
            q == a / d + b / d,
    ;
    lemma_div_is_ordered(d * q, a + b, d);
    lemma_div_pos_is_pos(a, d);
    lemma_div_pos_is_pos(b, d);
    vstd::arithmetic::div_mod::lemma_div_by_multiple(q, d);
    lemma_mul_is_commutative(q, d);
}

/// Rounds the quotient of a by b upward.
pub fn ceil_div(a: u128, b: u128) -> (r: u128)
    requires
        b > 0,
    ensures
        r == div_ceil(a as int, b as int),
{
    proof {
        lemma_fundamental_div_mod(a as int, b as int);
        lemma_div_pos_is_pos(a as int, b as int);
        lemma_mul_is_commutative(b as int, a as int / b as int);
    }
    let c = a / b;
    if c * b == a {
        c
    } else {
        proof {
            // The remainder is at least one, so c stays below a.
            lemma_mul_inequality(1, b as int, c as int);
        }
        c + 1
    }
}

} // verus!
