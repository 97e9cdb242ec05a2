//! Exact rational numbers with 64-bit numerator and denominator.
//!
//! A [`Rational`] is always in lowest terms with a positive denominator, so two
//! rationals are the same number exactly when their fields are equal. The
//! arithmetic itself is done by the `num` crate; the functions here hand it
//! plain integers and take plain integers back.

use vstd::prelude::*;
use vstd::arithmetic::power::pow;
use crate::share::lowest::lemma_lowest_terms_unique;
use num::rational::Ratio;
use num::traits::{CheckedAdd, CheckedDiv, CheckedMul, CheckedSub, ToPrimitive};

verus! {

/// No integer above one divides both `n` and `d`.
pub open spec fn coprime(n: int, d: int) -> bool {
    forall|k: int| 2 <= k ==> !(#[trigger] (n % k) == 0 && d % k == 0)
}

/// `d` is positive and `n / d` is in lowest terms.
pub open spec fn lowest_terms(n: int, d: int) -> bool {
    d > 0 && coprime(n, d)
}

/// An exact fraction `numer / denom` in lowest terms, `denom > 0`.
#[derive(Clone, Copy, Debug, PartialEq, Eq, Structural)]
pub struct Rational {
    numer: i64,
    denom: i64,
}

impl Rational {
    /// The numerator as a mathematical integer.
    pub closed spec fn num(self) -> int {
        self.numer as int
    }

    /// The denominator as a mathematical integer.
    pub closed spec fn den(self) -> int {
        self.denom as int
    }

    /// What holds of every rational: it is in lowest terms, and its
    /// denominator is positive.
    #[verifier::type_invariant]
    pub closed spec fn wf(self) -> bool {
        lowest_terms(self.numer as int, self.denom as int)
    }

    /// The rational with the given numerator and denominator.
    pub closed spec fn of(n: i64, d: i64) -> Rational {
        Rational { numer: n, denom: d }
    }

    /// The parts of the rational that was made of `n` and `d`.
    pub proof fn lemma_of(n: i64, d: i64)
        ensures
            #![trigger Rational::of(n, d)]
            Rational::of(n, d).num() == n,
            Rational::of(n, d).den() == d,
    {
    }

    /// A rational is made of its numerator and denominator.
    pub proof fn lemma_parts(self)
        ensures
            i64::MIN <= self.num() <= i64::MAX,
            i64::MIN <= self.den() <= i64::MAX,
            Rational::of(self.num() as i64, self.den() as i64) == self,
    {
    }

    /// Two rationals with the same numerator and denominator are equal.
    pub proof fn lemma_eq(a: Rational, b: Rational)
        requires
            a.num() == b.num(),
            a.den() == b.den(),
        ensures
            a == b,
    {
    }

    /// The fraction upside down, with the sign kept in the numerator.
    pub open spec fn recip(self) -> Rational
        recommends
            self.num() != 0,
            self.num() > i64::MIN,
    {
        if self.num() > 0 {
            Rational::of(self.den() as i64, self.num() as i64)
        } else {
            Rational::of((-self.den()) as i64, (-self.num()) as i64)
        }
    }

    /// Whether the number is an integer.
    pub fn is_integer(&self) -> (r: bool)
        ensures
            r == (self.den() == 1),
    {
        self.denom == 1
    }

    /// Whether the number is zero.
    pub fn is_zero(&self) -> (r: bool)
        ensures
            r == (self.num() == 0),
    {
        self.numer == 0
    }

    /// Whether two numbers are the same.
    pub fn same(&self, other: &Rational) -> (r: bool)
        ensures
            r == (*self == *other),
    {
        self.numer == other.numer && self.denom == other.denom
    }

    /// The integer `t` as a rational.
    pub fn from_integer(t: i64) -> (r: Rational)
        ensures
            r == Rational::of(t, 1),
            r.num() == t,
            r.den() == 1,
    {
        assert(coprime(t as int, 1)) by {
            assert forall|k: int| 2 <= k implies !(#[trigger] (t as int % k) == 0 && 1int % k == 0) by {
                assert(1int % k == 1) by (nonlinear_arith)
                    requires
                        2 <= k,
                ;
            }
        }
        Rational { numer: t, denom: 1 }
    }

    /// What `new` gives: the fraction in lowest terms with a positive
    /// denominator, where there is one that 64 bits can hold.
    pub open spec fn new_spec(numer: i64, denom: i64) -> Option<Rational> {
        if denom > 0 {
            Some(ratio_lowest(numer, denom))
        } else if denom < 0 && numer > i64::MIN && denom > i64::MIN {
            Some(ratio_lowest((-numer) as i64, (-denom) as i64))
        } else {
            None
        }
    }

    /// The fraction `numer / denom` in lowest terms. There is none for a zero
    /// denominator, nor where the sign cannot be moved to the numerator.
    pub fn new(numer: i64, denom: i64) -> (r: Option<Rational>)
        ensures
            r == Rational::new_spec(numer, denom),
            r matches Some(v) ==> exact_fraction(numer as int, denom as int, v),
    {
        if denom > 0 {
            Some(ratio_reduced(numer, denom))
        } else if denom < 0 && numer > i64::MIN && denom > i64::MIN {
            let v = ratio_reduced(-numer, -denom);
            assert(v.num() * denom == numer * v.den()) by (nonlinear_arith)
                requires
                    v.num() * (-denom) == (-numer) * v.den(),
            ;
            Some(v)
        } else {
            None
        }
    }

    /// The numerator.
    pub fn numer(&self) -> (r: i64)
        ensures
            r == self.num(),
    {
        self.numer
    }

    /// The denominator, which is positive and has no divisor in common with
    /// the numerator.
    pub fn denom(&self) -> (r: i64)
        ensures
            r == self.den(),
            r > 0,
            lowest_terms(self.num(), self.den()),
    {
        proof {
            use_type_invariant(self);
        }
        self.denom
    }
}

impl From<i64> for Rational {
    fn from(t: i64) -> (r: Rational) {
        Rational::from_integer(t)
    }
}

impl vstd::std_specs::convert::FromSpecImpl<i64> for Rational {
    open spec fn obeys_from_spec() -> bool {
        true
    }

    open spec fn from_spec(t: i64) -> Rational {
        Rational::of(t, 1)
    }
}

/// The remainder of `x` by `y` that takes the sign of `x`, as the machine's `%` does.
pub open spec fn trunc_rem(x: int, y: int) -> int
    recommends
        y != 0,
{
    let m = if y < 0 { -y } else { y };
    if x >= 0 { x % m } else { -((-x) % m) }
}

/// The products that `num` forms for a remainder stay within 64 bits.
pub open spec fn rem_in_range(a: Rational, b: Rational) -> bool {
    &&& -i64::MAX <= a.num() * b.den() <= i64::MAX
    &&& -i64::MAX <= b.num() * a.den() <= i64::MAX
    &&& a.den() * b.den() <= i64::MAX
}

/// The exact product of two 64-bit integers.
pub fn wide_product(x: i64, y: i64) -> (r: i128)
    ensures
        r == x * y,
        -0x4000_0000_0000_0000_0000_0000_0000_0000 <= r
            <= 0x4000_0000_0000_0000_0000_0000_0000_0000,
{
    assert(-0x4000_0000_0000_0000_0000_0000_0000_0000 <= x * y
        <= 0x4000_0000_0000_0000_0000_0000_0000_0000) by (nonlinear_arith)
        requires
            -0x8000_0000_0000_0000 <= x <= 0x8000_0000_0000_0000,
            -0x8000_0000_0000_0000 <= y <= 0x8000_0000_0000_0000,
    ;
    (x as i128) * (y as i128)
}

/// `x` is within 64 bits.
pub open spec fn in_i64(x: int) -> bool {
    i64::MIN <= x <= i64::MAX
}

/// `x` and `-x` are within 64 bits.
pub open spec fn in_i64_both_ways(x: int) -> bool {
    -i64::MAX <= x <= i64::MAX
}

/// The cross products of `a` and `b` and their sum are within 64 bits: then
/// `num` finds the sum.
pub open spec fn sum_fits(a: Rational, b: Rational) -> bool {
    &&& in_i64(a.den() * b.den())
    &&& in_i64(a.num() * b.den())
    &&& in_i64(b.num() * a.den())
    &&& in_i64(a.num() * b.den() + b.num() * a.den())
}

/// The cross products of `a` and `b` and their difference are within 64
/// bits: then `num` finds the difference.
pub open spec fn difference_fits(a: Rational, b: Rational) -> bool {
    &&& in_i64(a.den() * b.den())
    &&& in_i64(a.num() * b.den())
    &&& in_i64(b.num() * a.den())
    &&& in_i64(a.num() * b.den() - b.num() * a.den())
}

/// The products of the numerators and of the denominators are within 64
/// bits: then `num` finds the product.
pub open spec fn product_fits(a: Rational, b: Rational) -> bool {
    in_i64(a.num() * b.num()) && in_i64(a.den() * b.den())
}

/// The cross products of `a` and `b` are within 64 bits, whatever their
/// sign: then `num` finds the quotient.
pub open spec fn quotient_fits(a: Rational, b: Rational) -> bool {
    in_i64_both_ways(a.num() * b.den()) && in_i64_both_ways(a.den() * b.num())
}

/// The powers of the numerator and of the denominator are within 64 bits,
/// whatever their sign: then `num` finds the power.
pub open spec fn power_fits(a: Rational, exp: nat) -> bool {
    in_i64_both_ways(pow(a.num(), exp)) && in_i64_both_ways(pow(a.den(), exp))
}

/// `v` is the sum of `a` and `b`, in lowest terms.
pub open spec fn exact_sum(a: Rational, b: Rational, v: Rational) -> bool {
    lowest_terms(v.num(), v.den()) && v.num() * (a.den() * b.den()) == (a.num() * b.den() + b.num()
        * a.den()) * v.den()
}

/// `v` is the difference of `a` and `b`, in lowest terms.
pub open spec fn exact_difference(a: Rational, b: Rational, v: Rational) -> bool {
    lowest_terms(v.num(), v.den()) && v.num() * (a.den() * b.den()) == (a.num() * b.den() - b.num()
        * a.den()) * v.den()
}

/// `v` is the product of `a` and `b`, in lowest terms.
pub open spec fn exact_product(a: Rational, b: Rational, v: Rational) -> bool {
    lowest_terms(v.num(), v.den()) && v.num() * (a.den() * b.den()) == (a.num() * b.num())
        * v.den()
}

/// `v` is the quotient of `a` by `b`, in lowest terms.
pub open spec fn exact_quotient(a: Rational, b: Rational, v: Rational) -> bool {
    lowest_terms(v.num(), v.den()) && v.num() * (a.den() * b.num()) == (a.num() * b.den())
        * v.den()
}

/// `v` is the remainder of `a` by `b` that takes the sign of `a`, in lowest
/// terms.
pub open spec fn exact_remainder(a: Rational, b: Rational, v: Rational) -> bool {
    lowest_terms(v.num(), v.den()) && v.num() * (a.den() * b.den()) == trunc_rem(
        a.num() * b.den(),
        b.num() * a.den(),
    ) * v.den()
}

/// `v` is `a` to the power `exp`, in lowest terms.
pub open spec fn exact_power(a: Rational, exp: nat, v: Rational) -> bool {
    lowest_terms(v.num(), v.den()) && v.num() * pow(a.den(), exp) == pow(a.num(), exp) * v.den()
}

/// `v` is the fraction `n / d`, in lowest terms.
pub open spec fn exact_fraction(n: int, d: int, v: Rational) -> bool {
    lowest_terms(v.num(), v.den()) && v.num() * d == n * v.den()
}

/// What `num` returns for the checked sum of two rationals: `None` when one of
/// its intermediate products does not fit in 64 bits.
pub uninterp spec fn ratio_sum(a: Rational, b: Rational) -> Option<Rational>;

/// What `num` returns for the checked difference of two rationals.
pub uninterp spec fn ratio_difference(a: Rational, b: Rational) -> Option<Rational>;

/// What `num` returns for the checked product of two rationals.
pub uninterp spec fn ratio_product(a: Rational, b: Rational) -> Option<Rational>;

/// What `num` returns for the checked quotient of two rationals.
pub uninterp spec fn ratio_quotient(a: Rational, b: Rational) -> Option<Rational>;

/// What `num` returns for the checked power of a rational.
pub uninterp spec fn ratio_power(a: Rational, exp: usize) -> Option<Rational>;

/// The text of the nearest double-precision number to a rational, as the
/// standard library prints it; nothing where `num` finds no such number.
pub uninterp spec fn ratio_decimal_text(a: Rational) -> Option<Seq<char>>;

/// The fraction `n / d` in lowest terms, of which there is one for a
/// positive `d`.
pub open spec fn ratio_lowest(n: i64, d: i64) -> Rational {
    choose|v: Rational| exact_fraction(n as int, d as int, v)
}

/// The remainder of `a` by `b` that takes the sign of `a`, in lowest terms.
pub open spec fn ratio_remainder(a: Rational, b: Rational) -> Rational {
    choose|v: Rational| exact_remainder(a, b, v)
}

/// Two rationals in lowest terms that are the same number are equal.
pub proof fn lemma_same_number(v: Rational, w: Rational, k: int)
    requires
        lowest_terms(v.num(), v.den()),
        lowest_terms(w.num(), w.den()),
        k != 0,
        v.num() * w.den() * k == w.num() * v.den() * k,
    ensures
        v == w,
{
    assert(v.num() * w.den() == w.num() * v.den()) by (nonlinear_arith)
        requires
            k != 0,
            v.num() * w.den() * k == w.num() * v.den() * k,
    ;
    lemma_lowest_terms_unique(v.num(), v.den(), w.num(), w.den());
    Rational::lemma_eq(v, w);
}

/// There is one fraction in lowest terms that is `n / d`.
pub proof fn lemma_exact_fraction_unique(n: int, d: int, v: Rational, w: Rational)
    requires
        d > 0,
        exact_fraction(n, d, v),
        exact_fraction(n, d, w),
    ensures
        v == w,
{
    assert(v.num() * w.den() * d == w.num() * v.den() * d) by (nonlinear_arith)
        requires
            v.num() * d == n * v.den(),
            w.num() * d == n * w.den(),
    ;
    lemma_same_number(v, w, d);
}

/// There is one remainder in lowest terms.
pub proof fn lemma_exact_remainder_unique(a: Rational, b: Rational, v: Rational, w: Rational)
    requires
        a.den() > 0,
        b.den() > 0,
        exact_remainder(a, b, v),
        exact_remainder(a, b, w),
    ensures
        v == w,
{
    let k = a.den() * b.den();
    let r = trunc_rem(a.num() * b.den(), b.num() * a.den());
    assert(k > 0) by (nonlinear_arith)
        requires
            a.den() > 0,
            b.den() > 0,
            k == a.den() * b.den(),
    ;
    assert(v.num() * w.den() * k == w.num() * v.den() * k) by (nonlinear_arith)
        requires
            v.num() * k == r * v.den(),
            w.num() * k == r * w.den(),
    ;
    lemma_same_number(v, w, k);
}

/// `num::rational::Ratio::new`: the fraction `n / d` in lowest terms.
#[verifier::external_body]
fn ratio_new(n: i64, d: i64) -> (r: Rational)
    requires
        d > 0,
    ensures
        exact_fraction(n as int, d as int, r),
{
    let q = Ratio::new(n, d);
    Rational { numer: *q.numer(), denom: *q.denom() }
}

/// The fraction `n / d` in lowest terms; a fraction that is in lowest terms
/// already comes back as it is.
pub(crate) fn ratio_reduced(n: i64, d: i64) -> (r: Rational)
    requires
        d > 0,
    ensures
        r == ratio_lowest(n, d),
        exact_fraction(n as int, d as int, r),
        lowest_terms(n as int, d as int) ==> r.num() == n && r.den() == d,
{
    let r = ratio_new(n, d);
    proof {
        lemma_exact_fraction_unique(n as int, d as int, ratio_lowest(n, d), r);
        if lowest_terms(n as int, d as int) {
            let same = Rational::of(n, d);
            Rational::lemma_of(n, d);
            assert(same.num() * d == n * same.den()) by (nonlinear_arith)
                requires
                    same.num() == n,
                    same.den() == d,
            ;
            lemma_exact_fraction_unique(n as int, d as int, same, r);
        }
    }
    r
}

/// `CheckedAdd::checked_add` of `num` on two ratios. When it returns a value,
/// that value is the exact sum in lowest terms. It forms the common
/// denominator, the two numerators over it and their sum, none of which is
/// larger than the cross products and their sum: where those fit, it
/// returns a value.
#[verifier::external_body]
pub(crate) fn ratio_checked_add(a: Rational, b: Rational) -> (r: Option<Rational>)
    ensures
        r == ratio_sum(a, b),
        r matches Some(v) ==> exact_sum(a, b, v),
        sum_fits(a, b) ==> r is Some,
{
    let x = Ratio::new_raw(a.numer, a.denom);
    let y = Ratio::new_raw(b.numer, b.denom);
    match x.checked_add(&y) {
        Some(q) => Some(Rational { numer: *q.numer(), denom: *q.denom() }),
        None => None,
    }
}

/// `CheckedSub::checked_sub` of `num` on two ratios. When it returns a value,
/// that value is the exact difference in lowest terms. Where the cross
/// products and their difference fit, it returns a value.
#[verifier::external_body]
pub(crate) fn ratio_checked_sub(a: Rational, b: Rational) -> (r: Option<Rational>)
    ensures
        r == ratio_difference(a, b),
        r matches Some(v) ==> exact_difference(a, b, v),
        difference_fits(a, b) ==> r is Some,
{
    let x = Ratio::new_raw(a.numer, a.denom);
    let y = Ratio::new_raw(b.numer, b.denom);
    match x.checked_sub(&y) {
        Some(q) => Some(Rational { numer: *q.numer(), denom: *q.denom() }),
        None => None,
    }
}

/// `CheckedMul::checked_mul` of `num` on two ratios. When it returns a value,
/// that value is the exact product in lowest terms. It multiplies the
/// numerators and the denominators after dividing common divisors out:
/// where the full products fit, it returns a value.
#[verifier::external_body]
pub(crate) fn ratio_checked_mul(a: Rational, b: Rational) -> (r: Option<Rational>)
    ensures
        r == ratio_product(a, b),
        r matches Some(v) ==> exact_product(a, b, v),
        product_fits(a, b) ==> r is Some,
{
    let x = Ratio::new_raw(a.numer, a.denom);
    let y = Ratio::new_raw(b.numer, b.denom);
    match x.checked_mul(&y) {
        Some(q) => Some(Rational { numer: *q.numer(), denom: *q.denom() }),
        None => None,
    }
}

/// `CheckedDiv::checked_div` of `num` on two ratios, neither of them zero
/// (with a zero dividend and the least 64-bit numerator in the divisor `num`
/// overflows while taking a common divisor). When it returns a value, that
/// value is the exact quotient in lowest terms. It multiplies crosswise
/// after dividing common divisors out, and moves the sign to the numerator:
/// where the cross products fit with either sign, it returns a value.
#[verifier::external_body]
pub(crate) fn ratio_checked_div(a: Rational, b: Rational) -> (r: Option<Rational>)
    requires
        a.num() != 0,
        b.num() != 0,
    ensures
        r == ratio_quotient(a, b),
        r matches Some(v) ==> exact_quotient(a, b, v),
        quotient_fits(a, b) ==> r is Some,
{
    let x = Ratio::new_raw(a.numer, a.denom);
    let y = Ratio::new_raw(b.numer, b.denom);
    match x.checked_div(&y) {
        Some(q) => Some(Rational { numer: *q.numer(), denom: *q.denom() }),
        None => None,
    }
}

/// The `%` of `num` on two ratios, which brings both to a common denominator
/// and takes the remainder of the numerators. The bounds keep every product
/// it forms within 64 bits.
#[verifier::external_body]
fn ratio_percent(a: Rational, b: Rational) -> (r: Rational)
    requires
        b.num() != 0,
        rem_in_range(a, b),
    ensures
        exact_remainder(a, b, r),
{
    let q = Ratio::new_raw(a.numer, a.denom) % Ratio::new_raw(b.numer, b.denom);
    Rational { numer: *q.numer(), denom: *q.denom() }
}

/// The remainder of `a` by `b`.
pub(crate) fn ratio_rem(a: Rational, b: Rational) -> (r: Rational)
    requires
        b.num() != 0,
        rem_in_range(a, b),
    ensures
        r == ratio_remainder(a, b),
        exact_remainder(a, b, r),
{
    let r = ratio_percent(a, b);
    proof {
        use_type_invariant(a);
        use_type_invariant(b);
        lemma_exact_remainder_unique(a, b, ratio_remainder(a, b), r);
    }
    r
}

/// `num::traits::checked_pow` on a ratio: repeated checked multiplication.
/// When it returns a value, that value is the exact power in lowest terms.
/// Every product that it forms is a power of `a` not higher than `exp`:
/// where the powers of numerator and denominator fit, it returns a value.
#[verifier::external_body]
pub(crate) fn ratio_checked_pow(a: Rational, exp: usize) -> (r: Option<Rational>)
    ensures
        r == ratio_power(a, exp),
        r matches Some(v) ==> exact_power(a, exp as nat, v),
        power_fits(a, exp as nat) ==> r is Some,
{
    match num::traits::checked_pow(Ratio::new_raw(a.numer, a.denom), exp) {
        Some(q) => Some(Rational { numer: *q.numer(), denom: *q.denom() }),
        None => None,
    }
}

/// `Ratio::recip` of `num`: the fraction upside down, the sign kept in the
/// numerator.
#[verifier::external_body]
pub(crate) fn ratio_recip(a: Rational) -> (r: Rational)
    requires
        a.num() != 0,
        a.num() > i64::MIN,
    ensures
        r == a.recip(),
        lowest_terms(r.num(), r.den()),
{
    let q = Ratio::new_raw(a.numer, a.denom).recip();
    Rational { numer: *q.numer(), denom: *q.denom() }
}

/// The `<` of `num` on two ratios.
#[verifier::external_body]
pub(crate) fn ratio_lt(a: Rational, b: Rational) -> (r: bool)
    ensures
        r == (a.num() * b.den() < b.num() * a.den()),
{
    Ratio::new_raw(a.numer, a.denom) < Ratio::new_raw(b.numer, b.denom)
}

/// `ToPrimitive::to_f64` of `num` on a ratio, with the double that it gives
/// printed by the standard library; nothing where it gives none.
#[verifier::external_body]
pub(crate) fn ratio_to_decimal_text(a: Rational) -> (r: Option<String>)
    ensures
        match r {
            Some(text) => ratio_decimal_text(a) == Some(text@),
            None => ratio_decimal_text(a) is None,
        },
{
    match Ratio::new_raw(a.numer, a.denom).to_f64() {
        Some(x) => Some(format!("{}", x)),
        None => None,
    }
}

} // verus!
