//! Helper lemmas for modular arithmetic.
//!
//! The counters use wrapping arithmetic, so their state is related to the
//! mathematical count of increments through congruence modulo the width of
//! the counted integer type. The lemmas here let the per-counter proofs move
//! between the wrapped machine values and the unbounded counts.

use vstd::prelude::*;

verus! {

use vstd::arithmetic::div_mod::{
    lemma_add_mod_noop,
    lemma_fundamental_div_mod,
    lemma_mod_division_less_than_divisor,
    lemma_mod_multiples_vanish,
    lemma_mod_twice,
    lemma_small_mod,
};

/// `a` and `b` leave the same remainder modulo `m`.
pub open spec fn congruent(a: int, b: int, m: int) -> bool {
    a % m == b % m
}

/// Subtracting a multiple of the modulus does not change the residue.
pub proof fn lemma_multiple_vanishes(a: int, k: int, m: int)
    requires
        m > 0,
    ensures
        congruent(a + k * m, a, m),
{
    lemma_mod_multiples_vanish(k, a, m);
    assert(m * k == k * m) by (nonlinear_arith);
}

/// Congruence is compatible with addition.
pub proof fn lemma_congruent_add(a: int, b: int, c: int, d: int, m: int)
    requires
        m > 0,
        congruent(a, b, m),
        congruent(c, d, m),
    ensures
        congruent(a + c, b + d, m),
{
    lemma_add_mod_noop(a, c, m);
    lemma_add_mod_noop(b, d, m);
}

/// A value already inside `[0, m)` is its own residue.
pub proof fn lemma_residue_of_small(a: int, m: int)
    requires
        m > 0,
        0 <= a < m,
    ensures
        a % m == a,
{
    lemma_small_mod(a as nat, m as nat);
}

/// Wrapped addition of two values below the modulus is addition modulo `m`.
pub proof fn lemma_wrap_add(a: int, b: int, m: int)
    requires
        m > 0,
        0 <= a < m,
        0 <= b < m,
    ensures
        (a + b) % m == (if a + b < m { a + b } else { a + b - m }),
        0 <= (a + b) % m < m,
{
    if a + b < m {
        lemma_residue_of_small(a + b, m);
    } else {
        lemma_multiple_vanishes(a + b - m, 1, m);
        lemma_residue_of_small(a + b - m, m);
    }
}

/// The unique value congruent to `a` modulo `m` inside `[lo, lo + m)`.
/// With `lo == 0` this is `a % m`; with the minimum of a signed width it is
/// the value a wrapping machine addition leaves behind.
pub open spec fn residue_in(a: int, lo: int, m: int) -> int {
    lo + (a - lo) % m
}

/// `residue_in` lands in its window, is congruent to its argument, and
/// fixes every value already inside the window.
pub proof fn lemma_residue_in_props(a: int, lo: int, m: int)
    requires
        m > 0,
    ensures
        lo <= residue_in(a, lo, m) < lo + m,
        congruent(residue_in(a, lo, m), a, m),
        lo <= a < lo + m ==> residue_in(a, lo, m) == a,
{
    lemma_mod_division_less_than_divisor(a - lo, m);
    lemma_mod_twice(a - lo, m);
    lemma_congruent_add(lo, lo, (a - lo) % m, a - lo, m);
    if lo <= a < lo + m {
        lemma_residue_of_small(a - lo, m);
    }
}

/// Two congruent values that lie less than one modulus apart are equal.
pub proof fn lemma_congruent_close_equal(a: int, b: int, m: int)
    requires
        m > 0,
        congruent(a, b, m),
        -m < a - b < m,
    ensures
        a == b,
{
    lemma_fundamental_div_mod(a, m);
    lemma_fundamental_div_mod(b, m);
    let qa = a / m;
    let qb = b / m;
    assert(a - b == m * (qa - qb)) by {
        assert(a == m * qa + a % m);
        assert(b == m * qb + b % m);
        assert(m * qa - m * qb == m * (qa - qb)) by (nonlinear_arith);
    }
    assert(qa == qb) by {
        assert(-m < m * (qa - qb) < m);
        assert(-1 < qa - qb < 1) by (nonlinear_arith)
            requires
                m > 0,
                -m < m * (qa - qb) < m,
        ;
    }
}

} // verus!
