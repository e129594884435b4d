use vstd::prelude::*;

use crate::error::ConversionError;

verus! {

/// The greatest common divisor of `a` and `b`, by Euclid's recurrence
/// (`gcd(a, 0) == a`, so `gcd(0, 0) == 0`).
pub open spec fn gcd(a: nat, b: nat) -> nat
    decreases b,
{
    if b == 0 {
        a
    } else {
        gcd(b, a % b)
    }
}

/// Against a positive second argument the gcd is positive and at most that argument.
pub proof fn lemma_gcd_positive_bounded(a: nat, b: nat)
    requires
        b > 0,
    ensures
        0 < gcd(a, b) <= b,
    decreases b,
{
    if a % b == 0 {
        assert(gcd(b, 0) == b);
    } else {
        lemma_gcd_positive_bounded(b, a % b);
    }
}

/// The gcd of two numbers, not both zero, is positive and divides both.
pub proof fn lemma_gcd_divides(a: nat, b: nat)
    requires
        a > 0 || b > 0,
    ensures
        gcd(a, b) > 0,
        a % gcd(a, b) == 0,
        b % gcd(a, b) == 0,
    decreases b,
{
    if b == 0 {
        vstd::arithmetic::div_mod::lemma_mod_self_0(a as int);
        vstd::arithmetic::div_mod::lemma_small_mod(0, a);
    } else {
        let r = a % b;
        lemma_gcd_divides(b, r);
        let g = gcd(b, r);
        assert(gcd(a, b) == g);
        vstd::arithmetic::div_mod::lemma_fundamental_div_mod(a as int, b as int);
        vstd::arithmetic::div_mod::lemma_fundamental_div_mod(b as int, g as int);
        vstd::arithmetic::div_mod::lemma_fundamental_div_mod(r as int, g as int);
        let k = (b / g) * (a / b) + r / g;
        assert(a == k * g) by (nonlinear_arith)
            requires
                a == b * (a / b) + r,
                b == g * (b / g),
                r == g * (r / g),
                k == (b / g) * (a / b) + r / g,
        ;
        vstd::arithmetic::div_mod::lemma_mod_multiples_basic(k as int, g as int);
    }
}

/// `num::integer::gcd`: the greatest common divisor of two unsigned integers
/// (num-integer computes it with Stein's algorithm and returns the other argument
/// when one of them is zero). The contract claims it equals Euclid's `gcd`.
#[verifier::external_body]
fn gcd_u64(a: u64, b: u64) -> (g: u64)
    ensures
        g == gcd(a as nat, b as nat),
{
    num::integer::gcd(a, b)
}

proof fn lemma_u32_product_fits(a: u64, b: u64)
    requires
        a <= u32::MAX,
        b <= u32::MAX,
    ensures
        a * b <= u64::MAX,
{
    assert(a * b <= (u32::MAX as int) * (u32::MAX as int)) by (nonlinear_arith)
        requires
            0 <= a <= u32::MAX,
            0 <= b <= u32::MAX,
    ;
}

/// Whether the fraction `n / d` (with `d > 0`) is greater than one.
pub open spec fn ratio_gt_one(n: nat, d: nat) -> bool {
    n > d
}

/// Whether the fraction `n1 / d1` is smaller than `n2 / d2` (positive denominators).
pub open spec fn ratio_lt(n1: nat, d1: nat, n2: nat, d2: nat) -> bool {
    n1 * d2 < n2 * d1
}

/// The quotient `(n1 / d1) / (n2 / d2)` in lowest terms, as (numerator, denominator).
/// Dividing by a zero fraction is `DivByZero`; a reduced quotient whose numerator or
/// denominator does not fit in `u32` is `Overflow`.
pub open spec fn ratio_quotient(n1: nat, d1: nat, n2: nat, d2: nat) -> Result<
    (nat, nat),
    ConversionError,
> {
    if n2 == 0 {
        Err(ConversionError::DivByZero)
    } else {
        let x = n1 * d2;
        let y = d1 * n2;
        let g = gcd(x, y);
        if x / g > u32::MAX || y / g > u32::MAX {
            Err(ConversionError::Overflow)
        } else {
            Ok((x / g, y / g))
        }
    }
}

/// The quotient of two periods is exact: a successful `ratio_quotient` gives a
/// fraction `n / d` with a positive denominator equal to `(n1 / d1) / (n2 / d2)`.
pub proof fn law_quotient_is_exact(n1: nat, d1: nat, n2: nat, d2: nat)
    requires
        d1 > 0,
    ensures
        ({
            let q = ratio_quotient(n1, d1, n2, d2)->Ok_0;
            ratio_quotient(n1, d1, n2, d2) is Ok ==> q.1 > 0 && q.0 * (d1 * n2) == q.1 * (n1
                * d2)
        }),
{
    if n2 > 0 {
        let x = n1 * d2;
        let y = d1 * n2;
        assert(y > 0) by (nonlinear_arith)
            requires
                y == d1 * n2,
                d1 > 0,
                n2 > 0,
        ;
        lemma_gcd_divides(x, y);
        let g = gcd(x, y);
        vstd::arithmetic::div_mod::lemma_fundamental_div_mod(x as int, g as int);
        vstd::arithmetic::div_mod::lemma_fundamental_div_mod(y as int, g as int);
        let n = x / g;
        let d = y / g;
        assert(x == g * n && y == g * d) by (nonlinear_arith)
            requires
                x == g * (x / g) + x % g,
                y == g * (y / g) + y % g,
                x % g == 0,
                y % g == 0,
                n == x / g,
                d == y / g,
        ;
        assert(d > 0) by (nonlinear_arith)
            requires
                y == g * d,
                y > 0,
        ;
        assert(n * y == d * x) by (nonlinear_arith)
            requires
                x == g * n,
                y == g * d,
        ;
    }
}

/// A period of time in seconds, written as the fraction `numerator / denominator`.
/// The denominator is never zero.
#[derive(Debug, Clone, Copy)]
pub struct Period {
    numerator: u32,
    denominator: u32,
}

impl Period {
    #[verifier::type_invariant]
    spec fn well_formed(self) -> bool {
        self.denominator > 0
    }

    /// The numerator of the fraction.
    pub closed spec fn num(self) -> nat {
        self.numerator as nat
    }

    /// The denominator of the fraction.
    pub closed spec fn den(self) -> nat {
        self.denominator as nat
    }

    /// The period `numerator / denominator` seconds, kept as given (not reduced).
    pub fn new(numerator: u32, denominator: u32) -> (p: Period)
        requires
            denominator != 0,
        ensures
            p.num() == numerator,
            p.den() == denominator,
    {
        Period { numerator, denominator }
    }

    /// The numerator of the fraction.
    pub fn numerator(&self) -> (n: u32)
        ensures
            n == self.num(),
    {
        self.numerator
    }

    /// The denominator of the fraction, which is positive.
    pub fn denominator(&self) -> (d: u32)
        ensures
            d == self.den(),
            d > 0,
    {
        proof {
            use_type_invariant(self);
        }
        self.denominator
    }

    /// Whether this period is longer than one second.
    pub fn is_greater_than_one(&self) -> (r: bool)
        ensures
            r == ratio_gt_one(self.num(), self.den()),
    {
        self.numerator > self.denominator
    }

    /// Whether this period is shorter than `other`.
    pub fn is_shorter_than(&self, other: &Period) -> (r: bool)
        ensures
            r == ratio_lt(self.num(), self.den(), other.num(), other.den()),
    {
        let a = self.numerator as u64;
        let b = self.denominator as u64;
        let c = other.numerator as u64;
        let d = other.denominator as u64;
        proof {
            lemma_u32_product_fits(a, d);
            lemma_u32_product_fits(c, b);
        }
        a * d < c * b
    }

    /// The ratio of this period to `other`, in lowest terms.
    pub fn checked_div(&self, other: &Period) -> (r: Result<Period, ConversionError>)
        ensures
            match ratio_quotient(self.num(), self.den(), other.num(), other.den()) {
                Ok((n, d)) => r matches Ok(q) && q.num() == n && q.den() == d,
                Err(e) => r == Err::<Period, ConversionError>(e),
            },
    {
        proof {
            use_type_invariant(self);
            use_type_invariant(other);
        }
        if other.numerator == 0 {
            return Err(ConversionError::DivByZero);
        }
        let a = self.numerator as u64;
        let b = self.denominator as u64;
        let c = other.numerator as u64;
        let d = other.denominator as u64;
        proof {
            lemma_u32_product_fits(a, d);
            lemma_u32_product_fits(b, c);
        }
        let x = a * d;
        let y = b * c;
        assert(y > 0) by (nonlinear_arith)
            requires
                y == b * c,
                b > 0,
                c > 0,
        ;
        let g = gcd_u64(x, y);
        proof {
            lemma_gcd_positive_bounded(x as nat, y as nat);
        }
        let n = x / g;
        let m = y / g;
        if n > u32::MAX as u64 || m > u32::MAX as u64 {
            Err(ConversionError::Overflow)
        } else {
            assert(m > 0) by (nonlinear_arith)
                requires
                    m == y / g,
                    0 < g <= y,
            ;
            Ok(Period { numerator: n as u32, denominator: m as u32 })
        }
    }
}

} // verus!
