use vstd::prelude::*;

use crate::error::ConversionError;
use crate::period::Period;

verus! {

/// `x` scaled by the fraction `n / d` in an integer type whose largest value is `max`:
/// first `x * n` (an `Overflow` when it exceeds `max`), then the floor division by `d`
/// (`DivByZero` when `d` is zero).
pub open spec fn scale_by(x: nat, n: nat, d: nat, max: nat) -> Result<nat, ConversionError> {
    if x * n > max {
        Err(ConversionError::Overflow)
    } else if d == 0 {
        Err(ConversionError::DivByZero)
    } else {
        Ok(x * n / d)
    }
}

/// `x` divided by the fraction `n / d` in an integer type whose largest value is `max`:
/// first `x * d` (an `Overflow` when it exceeds `max`), then the floor division by `n`
/// (`DivByZero` when `n` is zero).
pub open spec fn scale_by_inverse(x: nat, n: nat, d: nat, max: nat) -> Result<
    nat,
    ConversionError,
> {
    if x * d > max {
        Err(ConversionError::Overflow)
    } else if n == 0 {
        Err(ConversionError::DivByZero)
    } else {
        Ok(x * d / n)
    }
}

/// An unsigned integer type that holds a tick count: `u32` or `u64`.
pub trait TimeInt: Sized + Copy {
    /// The value as a natural number.
    spec fn as_nat(self) -> nat;

    /// The largest value of the type.
    spec fn max_nat() -> nat;

    /// The width of the type in bits.
    spec fn width() -> nat;

    /// The value of the type that `n` stands for, where it fits.
    spec fn from_nat(n: nat) -> Self;

    proof fn lemma_from_nat(n: nat)
        requires
            n <= Self::max_nat(),
        ensures
            Self::from_nat(n).as_nat() == n,
    ;

    proof fn lemma_bounds(self)
        ensures
            self.as_nat() <= Self::max_nat(),
    ;

    proof fn lemma_width()
        ensures
            (Self::width() == 32 && Self::max_nat() == u32::MAX) || (Self::width() == 64
                && Self::max_nat() == u64::MAX),
    ;

    proof fn lemma_injective(self, other: Self)
        ensures
            self.as_nat() == other.as_nat() ==> self == other,
    ;

    /// The width of the type in bits.
    fn bits() -> (b: u32)
        ensures
            b == Self::width(),
    ;

    /// The value widened to `u64`.
    fn to_u64(self) -> (r: u64)
        ensures
            r == self.as_nat(),
    ;

    /// The `u64` narrowed to this type, where it fits.
    fn try_from_u64(v: u64) -> (r: Option<Self>)
        ensures
            r is Some <==> v <= Self::max_nat(),
            r matches Some(x) ==> x.as_nat() == v,
    ;

    /// The `u128` narrowed to this type, where it fits.
    fn try_from_u128(v: u128) -> (r: Option<Self>)
        ensures
            r is Some <==> v <= Self::max_nat(),
            r matches Some(x) ==> x.as_nat() == v,
    ;

    /// The `u32` widened to this type.
    fn from_u32(v: u32) -> (r: Self)
        ensures
            r.as_nat() == v,
    ;

    /// The smallest value of the type (zero).
    fn min_value() -> (r: Self)
        ensures
            r.as_nat() == 0,
    ;

    /// The largest value of the type.
    fn max_value() -> (r: Self)
        ensures
            r.as_nat() == Self::max_nat(),
    ;

    /// Multiplies by the period's numerator, then divides by its denominator.
    fn checked_mul_period(&self, period: &Period) -> (r: Result<Self, ConversionError>)
        ensures
            match scale_by(self.as_nat(), period.num(), period.den(), Self::max_nat()) {
                Ok(v) => r matches Ok(x) && x.as_nat() == v,
                Err(e) => r == Err::<Self, ConversionError>(e),
            },
    ;

    /// Multiplies by the period's denominator, then divides by its numerator.
    fn checked_div_period(&self, period: &Period) -> (r: Result<Self, ConversionError>)
        ensures
            match scale_by_inverse(self.as_nat(), period.num(), period.den(), Self::max_nat()) {
                Ok(v) => r matches Ok(x) && x.as_nat() == v,
                Err(e) => r == Err::<Self, ConversionError>(e),
            },
    ;

    /// The sum, which must fit.
    fn add_count(self, other: Self) -> (r: Self)
        requires
            self.as_nat() + other.as_nat() <= Self::max_nat(),
        ensures
            r.as_nat() == self.as_nat() + other.as_nat(),
    ;

    /// The difference, which must not be negative.
    fn sub_count(self, other: Self) -> (r: Self)
        requires
            other.as_nat() <= self.as_nat(),
        ensures
            r.as_nat() == self.as_nat() - other.as_nat(),
    ;

    /// The remainder of the division by a positive `other`.
    fn rem_count(self, other: Self) -> (r: Self)
        requires
            other.as_nat() > 0,
        ensures
            r.as_nat() == self.as_nat() % other.as_nat(),
    ;

    /// The sum, wrapping around past the largest value.
    fn wrapping_add(self, other: Self) -> (r: Self)
        ensures
            r.as_nat() == if self.as_nat() + other.as_nat() > Self::max_nat() {
                self.as_nat() + other.as_nat() - (Self::max_nat() + 1)
            } else {
                self.as_nat() + other.as_nat() + 0int
            },
    ;

    /// The difference, wrapping around below zero.
    fn wrapping_sub(self, other: Self) -> (r: Self)
        ensures
            r.as_nat() == if self.as_nat() >= other.as_nat() {
                self.as_nat() - other.as_nat()
            } else {
                self.as_nat() + (Self::max_nat() + 1) - other.as_nat()
            },
    ;

    /// Half the value, rounded down.
    fn half(self) -> (r: Self)
        ensures
            r.as_nat() == self.as_nat() / 2,
    ;

    /// Whether the two values are equal.
    fn eq_count(&self, other: &Self) -> (r: bool)
        ensures
            r == (self.as_nat() == other.as_nat()),
    ;

    /// Whether this value is smaller than `other`.
    fn lt_count(&self, other: &Self) -> (r: bool)
        ensures
            r == (self.as_nat() < other.as_nat()),
    ;
}

/// `<u32 as num::Bounded>::min_value()`, which num-traits defines as `u32::MIN`.
#[verifier::external_body]
fn u32_min_value() -> (r: u32)
    ensures
        r == 0,
{
    <u32 as num::Bounded>::min_value()
}

/// `<u32 as num::Bounded>::max_value()`, which num-traits defines as `u32::MAX`.
#[verifier::external_body]
fn u32_max_value() -> (r: u32)
    ensures
        r == u32::MAX,
{
    <u32 as num::Bounded>::max_value()
}

/// `<u64 as num::Bounded>::min_value()`, which num-traits defines as `u64::MIN`.
#[verifier::external_body]
fn u64_min_value() -> (r: u64)
    ensures
        r == 0,
{
    <u64 as num::Bounded>::min_value()
}

/// `<u64 as num::Bounded>::max_value()`, which num-traits defines as `u64::MAX`.
#[verifier::external_body]
fn u64_max_value() -> (r: u64)
    ensures
        r == u64::MAX,
{
    <u64 as num::Bounded>::max_value()
}

impl TimeInt for u32 {
    open spec fn as_nat(self) -> nat {
        self as nat
    }

    open spec fn max_nat() -> nat {
        u32::MAX as nat
    }

    open spec fn width() -> nat {
        32
    }

    open spec fn from_nat(n: nat) -> Self {
        n as u32
    }

    proof fn lemma_from_nat(n: nat) {
    }

    proof fn lemma_bounds(self) {
    }

    proof fn lemma_width() {
    }

    proof fn lemma_injective(self, other: Self) {
    }

    fn bits() -> (b: u32) {
        32
    }

    fn to_u64(self) -> (r: u64) {
        self as u64
    }

    fn try_from_u64(v: u64) -> (r: Option<Self>) {
        if v <= u32::MAX as u64 {
            Some(v as u32)
        } else {
            None
        }
    }

    fn try_from_u128(v: u128) -> (r: Option<Self>) {
        if v <= u32::MAX as u128 {
            Some(v as u32)
        } else {
            None
        }
    }

    fn from_u32(v: u32) -> (r: Self) {
        v
    }

    fn min_value() -> (r: Self) {
        u32_min_value()
    }

    fn max_value() -> (r: Self) {
        u32_max_value()
    }

    fn checked_mul_period(&self, period: &Period) -> (r: Result<Self, ConversionError>) {
        match self.checked_mul(period.numerator()) {
            None => Err(ConversionError::Overflow),
            Some(y) => match y.checked_div(period.denominator()) {
                None => Err(ConversionError::DivByZero),
                Some(z) => Ok(z),
            },
        }
    }

    fn checked_div_period(&self, period: &Period) -> (r: Result<Self, ConversionError>) {
        match self.checked_mul(period.denominator()) {
            None => Err(ConversionError::Overflow),
            Some(y) => match y.checked_div(period.numerator()) {
                None => Err(ConversionError::DivByZero),
                Some(z) => Ok(z),
            },
        }
    }

    fn add_count(self, other: Self) -> (r: Self) {
        self + other
    }

    fn sub_count(self, other: Self) -> (r: Self) {
        self - other
    }

    fn rem_count(self, other: Self) -> (r: Self) {
        self % other
    }

    fn wrapping_add(self, other: Self) -> (r: Self) {
        self.wrapping_add(other)
    }

    fn wrapping_sub(self, other: Self) -> (r: Self) {
        self.wrapping_sub(other)
    }

    fn half(self) -> (r: Self) {
        self / 2
    }

    fn eq_count(&self, other: &Self) -> (r: bool) {
        *self == *other
    }

    fn lt_count(&self, other: &Self) -> (r: bool) {
        *self < *other
    }
}

impl TimeInt for u64 {
    open spec fn as_nat(self) -> nat {
        self as nat
    }

    open spec fn max_nat() -> nat {
        u64::MAX as nat
    }

    open spec fn width() -> nat {
        64
    }

    open spec fn from_nat(n: nat) -> Self {
        n as u64
    }

    proof fn lemma_from_nat(n: nat) {
    }

    proof fn lemma_bounds(self) {
    }

    proof fn lemma_width() {
    }

    proof fn lemma_injective(self, other: Self) {
    }

    fn bits() -> (b: u32) {
        64
    }

    fn to_u64(self) -> (r: u64) {
        self
    }

    fn try_from_u64(v: u64) -> (r: Option<Self>) {
        Some(v)
    }

    fn try_from_u128(v: u128) -> (r: Option<Self>) {
        if v <= u64::MAX as u128 {
            Some(v as u64)
        } else {
            None
        }
    }

    fn from_u32(v: u32) -> (r: Self) {
        v as u64
    }

    fn min_value() -> (r: Self) {
        u64_min_value()
    }

    fn max_value() -> (r: Self) {
        u64_max_value()
    }

    fn checked_mul_period(&self, period: &Period) -> (r: Result<Self, ConversionError>) {
        match self.checked_mul(period.numerator() as u64) {
            None => Err(ConversionError::Overflow),
            Some(y) => match y.checked_div(period.denominator() as u64) {
                None => Err(ConversionError::DivByZero),
                Some(z) => Ok(z),
            },
        }
    }

    fn checked_div_period(&self, period: &Period) -> (r: Result<Self, ConversionError>) {
        match self.checked_mul(period.denominator() as u64) {
            None => Err(ConversionError::Overflow),
            Some(y) => match y.checked_div(period.numerator() as u64) {
                None => Err(ConversionError::DivByZero),
                Some(z) => Ok(z),
            },
        }
    }

    fn add_count(self, other: Self) -> (r: Self) {
        self + other
    }

    fn sub_count(self, other: Self) -> (r: Self) {
        self - other
    }

    fn rem_count(self, other: Self) -> (r: Self) {
        self % other
    }

    fn wrapping_add(self, other: Self) -> (r: Self) {
        self.wrapping_add(other)
    }

    fn wrapping_sub(self, other: Self) -> (r: Self) {
        self.wrapping_sub(other)
    }

    fn half(self) -> (r: Self) {
        self / 2
    }

    fn eq_count(&self, other: &Self) -> (r: bool) {
        *self == *other
    }

    fn lt_count(&self, other: &Self) -> (r: bool) {
        *self < *other
    }
}

} // verus!
