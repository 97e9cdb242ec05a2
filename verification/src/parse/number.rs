//! The value of a number literal.

use vstd::prelude::*;
use crate::parse::parse::{holds, is_at, scan_digits, skip_digits};
use crate::share::rational::{exact_fraction, ratio_lowest, ratio_reduced, Rational};
use crate::share::text::{
    all_digits, chars_of, digits_value, extend_value, is_digit, lemma_digits_value_prefix,
};

verus! {

/// Ten to the power `n`.
pub open spec fn pow10(n: nat) -> nat
    decreases n,
{
    if n == 0 {
        1
    } else {
        10 * pow10((n - 1) as nat)
    }
}

/// Where the parts of a number literal stand.
pub struct Shape {
    /// The offset behind the digits before the point.
    pub whole: int,
    /// Whether a point follows them.
    pub pointed: bool,
    /// The offset behind the digits behind the point.
    pub fraction: int,
    /// Whether an exponent follows.
    pub powered: bool,
    /// Whether the exponent has a minus.
    pub minus: bool,
    /// The offset of the first digit of the exponent.
    pub digits: int,
}

/// The parts of the number literal `t`.
pub open spec fn shape_of(t: Seq<char>) -> Shape {
    let whole = skip_digits(t, 0);
    let pointed = holds(t, whole, '.');
    let fraction = if pointed {
        skip_digits(t, whole + 1)
    } else {
        whole
    };
    let powered = holds(t, fraction, 'e') || holds(t, fraction, 'E');
    let minus = powered && holds(t, fraction + 1, '-');
    let signed = minus || (powered && holds(t, fraction + 1, '+'));
    let digits = if signed {
        fraction + 2
    } else {
        fraction + 1
    };
    Shape { whole, pointed, fraction, powered, minus, digits }
}

/// The digits before and behind the point, as one run.
pub open spec fn mantissa_digits(t: Seq<char>) -> Seq<char> {
    let shape = shape_of(t);
    t.subrange(0, shape.whole) + (if shape.pointed {
        t.subrange(shape.whole + 1, shape.fraction)
    } else {
        Seq::empty()
    })
}

/// The number of digits behind the point.
pub open spec fn places_of(t: Seq<char>) -> nat {
    let shape = shape_of(t);
    if shape.pointed {
        (shape.fraction - shape.whole - 1) as nat
    } else {
        0
    }
}

/// The exponent without its sign.
pub open spec fn magnitude_of(t: Seq<char>) -> nat {
    let shape = shape_of(t);
    if shape.powered && shape.digits <= t.len() {
        digits_value(t.subrange(shape.digits, skip_digits(t, shape.digits)))
    } else {
        0
    }
}

/// The integer `mantissa`, moved by the exponent and by the places behind
/// the point, in lowest terms. `None` where a part does not fit in 64 bits,
/// or the number is moved by more than 18 places.
pub open spec fn scaled(mantissa: nat, magnitude: nat, minus: bool, places: nat, negative: bool) -> Option<
    Rational,
> {
    let shift = (if minus {
        -magnitude
    } else {
        magnitude as int
    }) - places;
    if mantissa > i64::MAX || magnitude > i64::MAX || shift > 18 || shift < -18 {
        None
    } else if shift >= 0 {
        let n = mantissa * pow10(shift as nat);
        if n > i64::MAX {
            None
        } else if negative {
            Some(Rational::of((-n) as i64, 1))
        } else {
            Some(Rational::of(n as i64, 1))
        }
    } else if negative {
        Some(ratio_lowest((-mantissa) as i64, pow10((-shift) as nat) as i64))
    } else {
        Some(ratio_lowest(mantissa as i64, pow10((-shift) as nat) as i64))
    }
}

/// `v` is the integer `mantissa` with its sign, moved by the exponent and by
/// the places behind the point.
pub open spec fn exactly_scaled(mantissa: nat, magnitude: nat, minus: bool, places: nat, negative: bool, v: Rational) -> bool {
    let shift = (if minus {
        -magnitude
    } else {
        magnitude as int
    }) - places;
    let whole = if negative {
        -mantissa
    } else {
        mantissa as int
    };
    if shift >= 0 {
        v.num() == whole * pow10(shift as nat) && v.den() == 1
    } else {
        exact_fraction(whole, pow10((-shift) as nat) as int, v)
    }
}

/// `v` is the number that the literal `t` writes, with a minus before it or
/// not.
pub open spec fn exact_literal(t: Seq<char>, negative: bool, v: Rational) -> bool {
    exactly_scaled(
        digits_value(mantissa_digits(t)),
        magnitude_of(t),
        shape_of(t).minus,
        places_of(t),
        negative,
        v,
    )
}

/// The number that a literal writes.
pub open spec fn literal_value(t: Seq<char>, negative: bool) -> Option<Rational> {
    scaled(
        digits_value(mantissa_digits(t)),
        magnitude_of(t),
        shape_of(t).minus,
        places_of(t),
        negative,
    )
}

/// The characters that a scan of digits passes are digits.
pub proof fn lemma_skipped_digits(s: Seq<char>, i: int)
    requires
        0 <= i <= s.len(),
    ensures
        i <= skip_digits(s, i) <= s.len(),
        all_digits(s.subrange(i, skip_digits(s, i))),
    decreases s.len() - i,
{
    if i < s.len() && is_digit(s[i]) {
        lemma_skipped_digits(s, i + 1);
        let end = skip_digits(s, i);
        assert forall|k: int| 0 <= k < end - i implies is_digit(#[trigger] s.subrange(i, end)[k]) by {
            if k > 0 {
                assert(s.subrange(i + 1, end)[k - 1] == s.subrange(i, end)[k]);
            }
        }
    }
}

/// The powers of ten up to the eighteenth fit in 64 bits.
pub proof fn lemma_pow10_bound(n: nat)
    requires
        n <= 18,
    ensures
        1 <= pow10(n) <= 1_000_000_000_000_000_000,
{
    reveal_with_fuel(pow10, 20);
}

fn power_of_ten(n: u32) -> (r: u64)
    requires
        n <= 18,
    ensures
        r == pow10(n as nat),
        1 <= r <= 1_000_000_000_000_000_000,
{
    let mut r: u64 = 1;
    let mut i: u32 = 0;
    proof {
        lemma_pow10_bound(n as nat);
    }
    while i < n
        invariant
            i <= n,
            n <= 18,
            r == pow10(i as nat),
        decreases n - i,
    {
        proof {
            lemma_pow10_bound((i + 1) as nat);
        }
        r = r * 10;
        i = i + 1;
    }
    r
}

/// The offsets of the parts of a number literal.
struct Parts {
    whole: usize,
    pointed: bool,
    fraction: usize,
    powered: bool,
    minus: bool,
    digits: usize,
}

fn split(cs: &Vec<char>) -> (r: Parts)
    ensures
        r.whole == shape_of(cs@).whole,
        r.pointed == shape_of(cs@).pointed,
        r.fraction == shape_of(cs@).fraction,
        r.powered == shape_of(cs@).powered,
        r.minus == shape_of(cs@).minus,
        r.powered ==> r.digits == shape_of(cs@).digits,
        r.whole <= r.fraction <= cs.len(),
        r.pointed ==> r.whole < r.fraction,
        r.powered ==> r.fraction < r.digits <= cs.len(),
{
    let whole = scan_digits(cs, 0);
    let pointed = is_at(cs, whole, '.');
    let fraction = if pointed {
        scan_digits(cs, whole + 1)
    } else {
        whole
    };
    let powered = is_at(cs, fraction, 'e') || is_at(cs, fraction, 'E');
    if powered {
        let minus = is_at(cs, fraction + 1, '-');
        let signed = minus || is_at(cs, fraction + 1, '+');
        let digits = if signed {
            fraction + 2
        } else {
            fraction + 1
        };
        Parts { whole, pointed, fraction, powered, minus, digits }
    } else {
        Parts { whole, pointed, fraction, powered, minus: false, digits: fraction }
    }
}

fn read_mantissa(cs: &Vec<char>, parts: &Parts) -> (r: Option<u64>)
    requires
        parts.whole == shape_of(cs@).whole,
        parts.pointed == shape_of(cs@).pointed,
        parts.fraction == shape_of(cs@).fraction,
        parts.whole <= parts.fraction <= cs.len(),
        parts.pointed ==> parts.whole < parts.fraction,
    ensures
        match r {
            Some(v) => v == digits_value(mantissa_digits(cs@)) && v <= i64::MAX,
            None => digits_value(mantissa_digits(cs@)) > i64::MAX,
        },
{
    let ghost t = cs@;
    let ghost before = t.subrange(0, parts.whole as int);
    let ghost behind = if parts.pointed {
        t.subrange(parts.whole + 1, parts.fraction as int)
    } else {
        Seq::<char>::empty()
    };
    proof {
        lemma_skipped_digits(t, 0);
        if parts.pointed {
            lemma_skipped_digits(t, parts.whole + 1);
        }
        assert(all_digits(before + behind));
        assert((before + behind).subrange(0, before.len() as int) =~= before);
        lemma_digits_value_prefix(before + behind, before.len() as int);
        assert(Seq::<char>::empty() + before =~= before);
    }
    let first = match extend_value(cs, 0, parts.whole, 0, Ghost(Seq::empty())) {
        Some(v) => v,
        None => {
            return None;
        },
    };
    if parts.pointed {
        extend_value(cs, parts.whole + 1, parts.fraction, first, Ghost(before))
    } else {
        assert(before + behind =~= before);
        Some(first)
    }
}

fn read_magnitude(cs: &Vec<char>, parts: &Parts) -> (r: Option<u64>)
    requires
        parts.powered == shape_of(cs@).powered,
        parts.powered ==> parts.digits == shape_of(cs@).digits && parts.digits <= cs.len(),
    ensures
        match r {
            Some(v) => v == magnitude_of(cs@) && v <= i64::MAX,
            None => magnitude_of(cs@) > i64::MAX,
        },
{
    if parts.powered {
        let ghost t = cs@;
        proof {
            lemma_skipped_digits(t, parts.digits as int);
            assert(Seq::<char>::empty() + t.subrange(
                parts.digits as int,
                skip_digits(t, parts.digits as int),
            ) =~= t.subrange(parts.digits as int, skip_digits(t, parts.digits as int)));
        }
        let end = scan_digits(cs, parts.digits);
        extend_value(cs, parts.digits, end, 0, Ghost(Seq::empty()))
    } else {
        Some(0)
    }
}

fn scale(mantissa: u64, magnitude: u64, minus: bool, places: usize, negative: bool) -> (r: Option<
    Rational,
>)
    requires
        mantissa <= i64::MAX,
        magnitude <= i64::MAX,
    ensures
        r == scaled(mantissa as nat, magnitude as nat, minus, places as nat, negative),
        r matches Some(v) ==> exactly_scaled(
            mantissa as nat,
            magnitude as nat,
            minus,
            places as nat,
            negative,
            v,
        ),
{
    let exponent: i128 = if minus {
        -(magnitude as i128)
    } else {
        magnitude as i128
    };
    let shift: i128 = exponent - places as i128;
    if shift > 18 || shift < -18 {
        return None;
    }
    if shift >= 0 {
        let factor = power_of_ten(shift as u32);
        assert(mantissa * factor <= 0x7fff_ffff_ffff_ffff * 1_000_000_000_000_000_000)
            by (nonlinear_arith)
            requires
                mantissa <= 0x7fff_ffff_ffff_ffff,
                factor <= 1_000_000_000_000_000_000,
        ;
        let n: u128 = mantissa as u128 * factor as u128;
        if n > 0x7fff_ffff_ffff_ffff {
            return None;
        }
        let v = n as i64;
        assert((-(mantissa as int)) * factor == -(mantissa * factor)) by (nonlinear_arith);
        Some(
            Rational::from_integer(
                if negative {
                    -v
                } else {
                    v
                },
            ),
        )
    } else {
        let factor = power_of_ten((-shift) as u32) as i64;
        let v = mantissa as i64;
        Some(
            ratio_reduced(
                if negative {
                    -v
                } else {
                    v
                },
                factor,
            ),
        )
    }
}

/// The value of the number literal `text`, with a minus before it or not.
pub fn number_from_text(text: &str, negative: bool) -> (r: Option<Rational>)
    ensures
        r == literal_value(text@, negative),
        r matches Some(v) ==> exact_literal(text@, negative, v),
{
    let cs = chars_of(text);
    let parts = split(&cs);
    let mantissa = match read_mantissa(&cs, &parts) {
        Some(v) => v,
        None => {
            return None;
        },
    };
    let magnitude = match read_magnitude(&cs, &parts) {
        Some(v) => v,
        None => {
            return None;
        },
    };
    let places: usize = if parts.pointed {
        parts.fraction - parts.whole - 1
    } else {
        0
    };
    scale(mantissa, magnitude, parts.minus, places, negative)
}

} // verus!
