//! A fraction has one form in lowest terms.

use vstd::prelude::*;
use vstd::arithmetic::div_mod::{
    lemma_fundamental_div_mod, lemma_fundamental_div_mod_converse_mod, lemma_mod_bound,
};
use crate::share::rational::{coprime, lowest_terms};

verus! {

/// A number with remainder zero is a multiple of the divisor.
pub proof fn lemma_multiple(m: int, k: int) -> (t: int)
    requires
        k > 0,
        m % k == 0,
    ensures
        m == k * t,
{
    lemma_fundamental_div_mod(m, k);
    m / k
}

/// A multiple of the divisor has remainder zero.
pub proof fn lemma_remainder_zero(m: int, k: int, t: int)
    requires
        k > 0,
        m == k * t,
    ensures
        m % k == 0,
{
    assert(m == t * k + 0) by (nonlinear_arith)
        requires
            m == k * t,
    ;
    lemma_fundamental_div_mod_converse_mod(m, k, t, 0);
}

/// Two numbers without a common divisor combine to one: there are `x`
/// and `y` with `a * x + b * y == 1`.
pub proof fn lemma_combine_to_one(a: int, b: int) -> (xy: (int, int))
    requires
        b >= 0,
        coprime(a, b),
    ensures
        a * xy.0 + b * xy.1 == 1,
    decreases b,
{
    if b == 0 {
        if a >= 2 || a <= -2 {
            let k = if a >= 2 {
                a
            } else {
                -a
            };
            let t = if a >= 2 {
                1int
            } else {
                -1int
            };
            assert(a == k * t) by (nonlinear_arith)
                requires
                    (a >= 2 && k == a && t == 1) || (a <= -2 && k == -a && t == -1),
            ;
            lemma_remainder_zero(a, k, t);
            lemma_remainder_zero(0, k, 0);
            assert(a % k == 0 && b % k == 0);
        } else if a == 0 {
            lemma_remainder_zero(0, 2, 0);
            assert(a % 2 == 0 && b % 2 == 0);
        }
        assert(a == 1 || a == -1);
        assert(a * a + b * 0 == 1) by (nonlinear_arith)
            requires
                a == 1 || a == -1,
        ;
        (a, 0)
    } else {
        let q = a / b;
        let r = a % b;
        lemma_fundamental_div_mod(a, b);
        lemma_mod_bound(a, b);
        assert forall|k: int| 2 <= k implies !(#[trigger] (b % k) == 0 && r % k == 0) by {
            if b % k == 0 && r % k == 0 {
                let tb = lemma_multiple(b, k);
                let tr = lemma_multiple(r, k);
                assert(a == k * (tb * q + tr)) by (nonlinear_arith)
                    requires
                        a == b * q + r,
                        b == k * tb,
                        r == k * tr,
                ;
                lemma_remainder_zero(a, k, tb * q + tr);
                assert(a % k == 0 && b % k == 0);
            }
        }
        let (x, y) = lemma_combine_to_one(b, r);
        assert(a * y + b * (x - q * y) == 1) by (nonlinear_arith)
            requires
                a == b * q + r,
                b * x + r * y == 1,
        ;
        (y, x - q * y)
    }
}

/// A number that has no divisor in common with `a` and divides `a * c`
/// divides `c`.
pub proof fn lemma_divides_other_factor(a: int, b: int, c: int, t: int) -> (s: int)
    requires
        b > 0,
        coprime(a, b),
        a * c == b * t,
    ensures
        c == b * s,
{
    let (x, y) = lemma_combine_to_one(a, b);
    let s = t * x + c * y;
    assert(c == b * s) by (nonlinear_arith)
        requires
            a * x + b * y == 1,
            a * c == b * t,
            s == t * x + c * y,
    ;
    s
}

/// Two fractions in lowest terms that are the same number are the same
/// fraction.
pub proof fn lemma_lowest_terms_unique(n1: int, d1: int, n2: int, d2: int)
    requires
        lowest_terms(n1, d1),
        lowest_terms(n2, d2),
        n1 * d2 == n2 * d1,
    ensures
        n1 == n2,
        d1 == d2,
{
    assert(n1 * d2 == d1 * n2) by (nonlinear_arith)
        requires
            n1 * d2 == n2 * d1,
    ;
    let s1 = lemma_divides_other_factor(n1, d1, d2, n2);
    assert(n2 * d1 == d2 * n1) by (nonlinear_arith)
        requires
            n1 * d2 == n2 * d1,
    ;
    let s2 = lemma_divides_other_factor(n2, d2, d1, n1);
    assert(s1 == 1 && s2 == 1) by (nonlinear_arith)
        requires
            d1 > 0,
            d2 > 0,
            d2 == d1 * s1,
            d1 == d2 * s2,
    ;
    assert(d1 == d2) by (nonlinear_arith)
        requires
            d2 == d1 * s1,
            s1 == 1,
    ;
    assert(n1 == n2) by (nonlinear_arith)
        requires
            n1 * d2 == n2 * d1,
            d1 == d2,
            d1 > 0,
    ;
}

} // verus!
