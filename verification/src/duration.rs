use vstd::prelude::*;

use crate::error::ConversionError;
use crate::period::Period;
use crate::time_int::TimeInt;

verus! {

/// `t` counts of `p_num / p_den` seconds, counted in units of `q_num / q_den` seconds
/// and rounded down once.
pub open spec fn exact_count(t: nat, p_num: nat, p_den: nat, q_num: nat, q_den: nat) -> nat {
    (t * p_num * q_den) / (p_den * q_num)
}

/// `t * m1 / d1`, rounded down, then times `m2 / d2`, rounded down again.
pub open spec fn twice_rounded(t: nat, m1: nat, d1: nat, m2: nat, d2: nat) -> nat {
    ((t * m1 / d1) * m2) / d2
}

/// The outcome of a conversion whose result is `v`, from a count held in `S` to a count
/// held in `D`: `v` where it fits in `D`; `ConversionFailure` where it fits in `S` but
/// not in the narrower `D`; `Overflow` where it fits in neither.
pub open spec fn fitted<S: TimeInt, D: TimeInt>(v: nat) -> Result<nat, ConversionError> {
    if v <= D::max_nat() {
        Ok(v)
    } else if S::width() > D::width() && v <= S::max_nat() {
        Err(ConversionError::ConversionFailure)
    } else {
        Err(ConversionError::Overflow)
    }
}

/// A conversion that rounds once: `numer / denom` rounded down, fitted from `S` to `D`;
/// `DivByZero` for a zero `denom`.
pub open spec fn scaled_count<S: TimeInt, D: TimeInt>(numer: nat, denom: nat) -> Result<
    nat,
    ConversionError,
> {
    if denom == 0 {
        Err(ConversionError::DivByZero)
    } else {
        fitted::<S, D>(numer / denom)
    }
}

/// A conversion that rounds twice: `twice_rounded(t, m1, d1, m2, d2)`, fitted from `S`
/// to `D`. A zero divisor is `DivByZero`, unless one of the two products `t * m1` and
/// `(t * m1 / d1) * m2` exceeds `work_max` (the largest value of the type the steps are
/// taken in) before the division by zero is reached: that is an `Overflow`.
pub open spec fn rescaled_count<S: TimeInt, D: TimeInt>(
    t: nat,
    m1: nat,
    d1: nat,
    m2: nat,
    d2: nat,
    work_max: nat,
) -> Result<nat, ConversionError> {
    if d1 == 0 {
        Err(ConversionError::DivByZero)
    } else if d2 == 0 {
        if t * m1 > work_max || (t * m1 / d1) * m2 > work_max {
            Err(ConversionError::Overflow)
        } else {
            Err(ConversionError::DivByZero)
        }
    } else {
        fitted::<S, D>(twice_rounded(t, m1, d1, m2, d2))
    }
}

/// The largest value of the wider of `A` and `B` (of `B` when they are equally wide).
pub open spec fn wider_max<A: TimeInt, B: TimeInt>() -> nat {
    if A::width() > B::width() {
        A::max_nat()
    } else {
        B::max_nat()
    }
}

/// Whether a conversion from ticks of `p_num / p_den` seconds held in `R` to units of
/// `q_num / q_den` seconds held in `D` rounds twice: when the tick period is longer than a
/// second (multiply by it, round, divide by the unit, round), or when `D` is not wider
/// than `R` and the unit is longer than a second (divide by the unit, round, multiply by
/// the tick period, round). Otherwise it multiplies by the ratio of the two periods and
/// rounds once.
pub open spec fn from_ticks_rounds_twice<R: TimeInt, D: TimeInt>(
    p_num: nat,
    p_den: nat,
    q_num: nat,
    q_den: nat,
) -> bool {
    p_num > p_den || (!(D::width() > R::width()) && q_num > q_den)
}

/// The count, before it is fitted to `D`, that `ticks` ticks of `p_num / p_den` seconds
/// convert to in units of `q_num / q_den` seconds, rounded as `from_ticks` rounds.
pub open spec fn from_ticks_rounded<R: TimeInt, D: TimeInt>(
    ticks: nat,
    p_num: nat,
    p_den: nat,
    q_num: nat,
    q_den: nat,
) -> nat {
    if p_num > p_den {
        twice_rounded(ticks, p_num, p_den, q_den, q_num)
    } else if !(D::width() > R::width()) && q_num > q_den {
        twice_rounded(ticks, q_den, q_num, p_num, p_den)
    } else {
        exact_count(ticks, p_num, p_den, q_num, q_den)
    }
}

/// The count of units of `q_num / q_den` seconds, held in `D`, that `ticks` ticks of
/// `p_num / p_den` seconds, held in `R`, convert to, or the error.
pub open spec fn from_ticks_count<R: TimeInt, D: TimeInt>(
    ticks: nat,
    p_num: nat,
    p_den: nat,
    q_num: nat,
    q_den: nat,
) -> Result<nat, ConversionError> {
    if p_num > p_den {
        rescaled_count::<R, D>(ticks, p_num, p_den, q_den, q_num, wider_max::<D, R>())
    } else if !(D::width() > R::width()) && q_num > q_den {
        rescaled_count::<R, D>(ticks, q_den, q_num, p_num, p_den, wider_max::<D, R>())
    } else {
        scaled_count::<R, D>(ticks * p_num * q_den, p_den * q_num)
    }
}

/// Whether a conversion of a count of `s_num / s_den`-second units held in `S` into ticks
/// of `p_num / p_den` seconds held in `R` rounds twice (multiply by the unit, round, divide
/// by the tick period, round): when `R` is wider than `S` and the tick period is longer
/// than a second, or when `R` is not wider and the unit is longer than a second.
pub open spec fn into_ticks_rounds_twice<S: TimeInt, R: TimeInt>(
    s_num: nat,
    s_den: nat,
    p_num: nat,
    p_den: nat,
) -> bool {
    if R::width() > S::width() {
        p_num > p_den
    } else {
        s_num > s_den
    }
}

/// The count of ticks, before it is fitted to `R`, that `count` units convert to, rounded
/// as `into_ticks` rounds.
pub open spec fn into_ticks_rounded<S: TimeInt, R: TimeInt>(
    count: nat,
    s_num: nat,
    s_den: nat,
    p_num: nat,
    p_den: nat,
) -> nat {
    if into_ticks_rounds_twice::<S, R>(s_num, s_den, p_num, p_den) {
        twice_rounded(count, s_num, s_den, p_den, p_num)
    } else {
        exact_count(count, s_num, s_den, p_num, p_den)
    }
}

/// The count of ticks of `p_num / p_den` seconds, held in `R`, that `count` units of
/// `s_num / s_den` seconds, held in `S`, convert to, or the error.
pub open spec fn into_ticks_count<S: TimeInt, R: TimeInt>(
    count: nat,
    s_num: nat,
    s_den: nat,
    p_num: nat,
    p_den: nat,
) -> Result<nat, ConversionError> {
    if into_ticks_rounds_twice::<S, R>(s_num, s_den, p_num, p_den) {
        rescaled_count::<S, R>(count, s_num, s_den, p_den, p_num, wider_max::<R, S>())
    } else {
        scaled_count::<S, R>(count * s_num * p_den, s_den * p_num)
    }
}

proof fn lemma_product_bounds(count: u64, a: u32, b: u32)
    ensures
        (count as nat) * (a as nat) <= u128::MAX,
        (count as nat) * (a as nat) * (b as nat) <= u128::MAX,
        (a as nat) * (b as nat) <= u128::MAX,
{
    assert((count as nat) * (a as nat) <= (u64::MAX as nat) * (u32::MAX as nat)) by (nonlinear_arith)
        requires
            count <= u64::MAX,
            a <= u32::MAX,
    ;
    assert((count as nat) * (a as nat) * (b as nat) <= (u64::MAX as nat) * (u32::MAX as nat) * (
    u32::MAX as nat)) by (nonlinear_arith)
        requires
            count <= u64::MAX,
            a <= u32::MAX,
            b <= u32::MAX,
    ;
    assert((a as nat) * (b as nat) <= (u32::MAX as nat) * (u32::MAX as nat)) by (nonlinear_arith)
        requires
            a <= u32::MAX,
            b <= u32::MAX,
    ;
}

/// The value `v`, held in `S`, fitted to `D`.
fn fit_count<S: TimeInt, D: TimeInt>(v: u128) -> (r: Result<D, ConversionError>)
    ensures
        match fitted::<S, D>(v as nat) {
            Ok(x) => r matches Ok(c) && c.as_nat() == x,
            Err(e) => r == Err::<D, ConversionError>(e),
        },
{
    match D::try_from_u128(v) {
        Some(x) => Ok(x),
        None => {
            if S::bits() > D::bits() && S::try_from_u128(v).is_some() {
                Err(ConversionError::ConversionFailure)
            } else {
                Err(ConversionError::Overflow)
            }
        },
    }
}

/// The count `count * num * den / (a * b)` (rounded down once), computed exactly in
/// `u128`, from a count held in `S` to one held in `D`.
fn scale_exactly<S: TimeInt, D: TimeInt>(count: u64, num: u32, den: u32, a: u32, b: u32) -> (r:
    Result<D, ConversionError>)
    ensures
        match scaled_count::<S, D>(
            (count as nat) * (num as nat) * (den as nat),
            (a as nat) * (b as nat),
        ) {
            Ok(v) => r matches Ok(x) && x.as_nat() == v,
            Err(e) => r == Err::<D, ConversionError>(e),
        },
{
    proof {
        lemma_product_bounds(count, num, den);
        lemma_product_bounds(0, a, b);
    }
    let numer = (count as u128) * (num as u128) * (den as u128);
    let denom = (a as u128) * (b as u128);
    if denom == 0 {
        return Err(ConversionError::DivByZero);
    }
    fit_count::<S, D>(numer / denom)
}

/// The count `count * m1 / d1` (rounded down), times `m2 / d2` (rounded down again),
/// computed exactly in `u128`, from a count held in `S` to one held in `D`; the steps
/// stand for arithmetic in `W`.
fn rescale_exactly<S: TimeInt, D: TimeInt, W: TimeInt>(
    count: u64,
    m1: u32,
    d1: u32,
    m2: u32,
    d2: u32,
) -> (r: Result<D, ConversionError>)
    ensures
        match rescaled_count::<S, D>(
            count as nat,
            m1 as nat,
            d1 as nat,
            m2 as nat,
            d2 as nat,
            W::max_nat(),
        ) {
            Ok(v) => r matches Ok(x) && x.as_nat() == v,
            Err(e) => r == Err::<D, ConversionError>(e),
        },
{
    if d1 == 0 {
        return Err(ConversionError::DivByZero);
    }
    proof {
        lemma_product_bounds(count, m1, m2);
    }
    let product = (count as u128) * (m1 as u128);
    let first = product / (d1 as u128);
    assert(first <= product) by (nonlinear_arith)
        requires
            first == product / (d1 as u128),
            d1 > 0,
    ;
    assert(first * (m2 as u128) <= product * (m2 as u128)) by (nonlinear_arith)
        requires
            first <= product,
    ;
    let second = first * (m2 as u128);
    if d2 == 0 {
        let work_max = W::max_value().to_u64() as u128;
        if product > work_max || second > work_max {
            return Err(ConversionError::Overflow);
        } else {
            return Err(ConversionError::DivByZero);
        }
    }
    fit_count::<S, D>(second / (d2 as u128))
}

/// An unsigned duration of time: a count of units, each `period()` seconds long.
pub trait Duration: Sized + Copy {
    /// The integer type of the count.
    type Rep: TimeInt;

    /// The numerator of the unit's length in seconds.
    spec fn period_num() -> nat;

    /// The denominator of the unit's length in seconds.
    spec fn period_den() -> nat;

    /// The count of units.
    spec fn spec_count(self) -> Self::Rep;

    /// The length of one unit in seconds.
    fn period() -> (p: Period)
        ensures
            p.num() == Self::period_num(),
            p.den() == Self::period_den(),
    ;

    /// The duration of `value` units.
    spec fn spec_new(value: Self::Rep) -> Self;

    proof fn lemma_new_count(value: Self::Rep)
        ensures
            Self::spec_new(value).spec_count() == value,
    ;

    /// The duration of `value` units.
    fn new(value: Self::Rep) -> (d: Self)
        ensures
            d == Self::spec_new(value),
            d.spec_count() == value,
    ;

    /// The count of units.
    fn count(self) -> (r: Self::Rep)
        ensures
            r == self.spec_count(),
    ;

    /// The duration of `ticks` ticks of `period` seconds each, in this unit, rounded down
    /// as `from_ticks_rounded` says. It fails only when that count does not fit in
    /// `Self::Rep`.
    fn from_ticks<R: TimeInt>(ticks: R, period: Period) -> (r: Result<Self, ConversionError>)
        ensures
            match from_ticks_count::<R, Self::Rep>(
                ticks.as_nat(),
                period.num(),
                period.den(),
                Self::period_num(),
                Self::period_den(),
            ) {
                Ok(v) => r == Ok::<Self, ConversionError>(Self::spec_new(Self::Rep::from_nat(v)))
                    && Self::spec_new(Self::Rep::from_nat(v)).spec_count().as_nat() == v,
                Err(e) => r == Err::<Self, ConversionError>(e),
            },
    {
        let dst_period = Self::period();
        proof {
            ticks.lemma_bounds();
        }
        let t = ticks.to_u64();
        let p_num: u32 = period.numerator();
        let p_den: u32 = period.denominator();
        let q_num: u32 = dst_period.numerator();
        let q_den: u32 = dst_period.denominator();
        let dst_wider = Self::Rep::bits() > R::bits();
        let converted = if p_num > p_den {
            if dst_wider {
                rescale_exactly::<R, Self::Rep, Self::Rep>(t, p_num, p_den, q_den, q_num)
            } else {
                rescale_exactly::<R, Self::Rep, R>(t, p_num, p_den, q_den, q_num)
            }
        } else if !dst_wider && q_num > q_den {
            rescale_exactly::<R, Self::Rep, R>(t, q_den, q_num, p_num, p_den)
        } else {
            scale_exactly::<R, Self::Rep>(t, p_num, q_den, p_den, q_num)
        };
        match converted {
            Ok(c) => {
                proof {
                    c.lemma_bounds();
                    Self::Rep::lemma_from_nat(c.as_nat());
                    c.lemma_injective(Self::Rep::from_nat(c.as_nat()));
                }
                Ok(Self::new(c))
            },
            Err(e) => Err(e),
        }
    }

    /// This duration as a count of ticks of `period` seconds each, rounded down as
    /// `into_ticks_rounded` says. It fails only when that count does not fit in `R`, or
    /// when `period` is zero.
    fn into_ticks<R: TimeInt>(self, period: Period) -> (r: Result<R, ConversionError>)
        ensures
            match into_ticks_count::<Self::Rep, R>(
                self.spec_count().as_nat(),
                Self::period_num(),
                Self::period_den(),
                period.num(),
                period.den(),
            ) {
                Ok(v) => r matches Ok(t) && t.as_nat() == v,
                Err(e) => r == Err::<R, ConversionError>(e),
            },
    {
        let own_period = Self::period();
        let count = self.count();
        proof {
            count.lemma_bounds();
        }
        let c = count.to_u64();
        let s_num: u32 = own_period.numerator();
        let s_den: u32 = own_period.denominator();
        let p_num: u32 = period.numerator();
        let p_den: u32 = period.denominator();
        let ticks_wider = R::bits() > Self::Rep::bits();
        let twice = if ticks_wider {
            p_num > p_den
        } else {
            s_num > s_den
        };
        if twice {
            if ticks_wider {
                rescale_exactly::<Self::Rep, R, R>(c, s_num, s_den, p_den, p_num)
            } else {
                rescale_exactly::<Self::Rep, R, Self::Rep>(c, s_num, s_den, p_den, p_num)
            }
        } else {
            scale_exactly::<Self::Rep, R>(c, s_num, p_den, s_den, p_num)
        }
    }

    /// The smallest count the representation holds (zero).
    fn min_value() -> (r: Self::Rep)
        ensures
            r.as_nat() == 0,
    {
        Self::Rep::min_value()
    }

    /// The largest count the representation holds.
    fn max_value() -> (r: Self::Rep)
        ensures
            r.as_nat() == Self::Rep::max_nat(),
    {
        Self::Rep::max_value()
    }
}

/// The count, in units of `D`, that the duration `source` converts to.
pub open spec fn converted_count<S: Duration, D: Duration>(source: S) -> Result<
    nat,
    ConversionError,
> {
    from_ticks_count::<S::Rep, D::Rep>(
        source.spec_count().as_nat(),
        S::period_num(),
        S::period_den(),
        D::period_num(),
        D::period_den(),
    )
}

/// `r` is the conversion that `s` describes: the duration `D::spec_new` makes of that
/// count, or that error.
pub open spec fn duration_result_is<D: Duration>(
    r: Result<D, ConversionError>,
    s: Result<nat, ConversionError>,
) -> bool {
    match s {
        Ok(v) => r == Ok::<D, ConversionError>(D::spec_new(D::Rep::from_nat(v)))
            && D::spec_new(D::Rep::from_nat(v)).spec_count().as_nat() == v,
        Err(e) => r == Err::<D, ConversionError>(e),
    }
}

/// Attempt to convert from one duration type to another.
pub trait TryConvertFrom<Source: Duration>: Duration {
    /// Perform the conversion: both the integer type and the unit may change, and the
    /// count is rounded down.
    fn try_convert_from(other: Source) -> (r: Result<Self, ConversionError>)
        ensures
            duration_result_is(r, converted_count::<Source, Self>(other)),
    ;
}

/// Attempt to convert from one duration type to another.
pub trait TryConvertInto<Dest: Duration>: Duration {
    /// Perform the conversion, the reciprocal of `TryConvertFrom`.
    fn try_convert_into(self) -> (r: Result<Dest, ConversionError>)
        ensures
            duration_result_is(r, converted_count::<Self, Dest>(self)),
    ;
}

impl<Source: Duration, Dest: Duration> TryConvertFrom<Source> for Dest {
    fn try_convert_from(source: Source) -> (r: Result<Self, ConversionError>) {
        Self::from_ticks(source.count(), Source::period())
    }
}

impl<Source: Duration, Dest: Duration> TryConvertInto<Dest> for Source {
    fn try_convert_into(self) -> (r: Result<Dest, ConversionError>) {
        Dest::try_convert_from(self)
    }
}

} // verus!
