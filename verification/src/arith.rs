//! Sums, differences, remainders and comparisons between durations of any units.

use vstd::prelude::*;

use core::cmp::Ordering;

use crate::duration::{Duration, TryConvertFrom, converted_count};
use crate::period::ratio_lt;
use crate::time_int::TimeInt;

verus! {

/// How `a` compares with `b`.
pub open spec fn ordering_of(a: nat, b: nat) -> Ordering {
    if a < b {
        Ordering::Less
    } else if a == b {
        Ordering::Equal
    } else {
        Ordering::Greater
    }
}

/// How the count `a` compares with the count `b`.
fn compare_counts<T: TimeInt>(a: T, b: T) -> (r: Ordering)
    ensures
        r == ordering_of(a.as_nat(), b.as_nat()),
{
    if a.lt_count(&b) {
        Ordering::Less
    } else if a.eq_count(&b) {
        Ordering::Equal
    } else {
        Ordering::Greater
    }
}

/// Whether a comparison of `lhs` with `rhs` can be made: the duration with the longer
/// unit (`rhs` when the units are equal) converts to the other's type.
pub open spec fn comparable<L: Duration, R: Duration>(lhs: L, rhs: R) -> bool {
    if ratio_lt(L::period_num(), L::period_den(), R::period_num(), R::period_den()) {
        converted_count::<R, L>(rhs) is Ok
    } else {
        converted_count::<L, R>(lhs) is Ok
    }
}

/// The pair of counts that a comparison of `lhs` with `rhs` compares: both in the unit
/// and integer type of the duration with the shorter unit (`rhs`'s when they are equal).
pub open spec fn compared_counts<L: Duration, R: Duration>(lhs: L, rhs: R) -> (nat, nat) {
    if ratio_lt(L::period_num(), L::period_den(), R::period_num(), R::period_den()) {
        (lhs.spec_count().as_nat(), converted_count::<R, L>(rhs)->Ok_0)
    } else {
        (converted_count::<L, R>(lhs)->Ok_0, rhs.spec_count().as_nat())
    }
}

/// Arithmetic and comparisons with a duration `Rhs` of any unit. The result of an
/// arithmetic operation has the unit and integer type of the left-hand side.
pub trait DurationOps<Rhs: Duration>: Duration {
    /// `self + rhs`: `rhs` is converted to this type, and the conversion and the sum
    /// must succeed.
    fn plus(self, rhs: Rhs) -> (r: Self)
        requires
            converted_count::<Rhs, Self>(rhs) matches Ok(v) && self.spec_count().as_nat() + v
                <= Self::Rep::max_nat(),
        ensures
            r.spec_count().as_nat() == self.spec_count().as_nat() + converted_count::<Rhs, Self>(
                rhs,
            )->Ok_0,
    ;

    /// `self - rhs`: `rhs` is converted to this type, and the conversion must succeed
    /// and not exceed `self`.
    fn minus(self, rhs: Rhs) -> (r: Self)
        requires
            converted_count::<Rhs, Self>(rhs) matches Ok(v) && v <= self.spec_count().as_nat(),
        ensures
            r.spec_count().as_nat() == self.spec_count().as_nat() - converted_count::<Rhs, Self>(
                rhs,
            )->Ok_0,
    ;

    /// `self % rhs`: `rhs` is converted to this type (which must succeed); a divisor
    /// that converts to zero gives zero.
    fn remainder(self, rhs: Rhs) -> (r: Self)
        requires
            converted_count::<Rhs, Self>(rhs) is Ok,
        ensures
            ({
                let v = converted_count::<Rhs, Self>(rhs)->Ok_0;
                r.spec_count().as_nat() == if v > 0 {
                    self.spec_count().as_nat() % v
                } else {
                    0
                }
            }),
    ;

    /// `self == *other`: the counts compared in the type with the shorter unit.
    fn eq_duration(&self, other: &Rhs) -> (r: bool)
        requires
            comparable(*self, *other),
        ensures
            r == (compared_counts(*self, *other).0 == compared_counts(*self, *other).1),
    ;

    /// `self.partial_cmp(other)`: the counts compared in the type with the shorter unit.
    fn partial_cmp_duration(&self, other: &Rhs) -> (r: Option<Ordering>)
        requires
            comparable(*self, *other),
        ensures
            r == Some(ordering_of(compared_counts(*self, *other).0, compared_counts(*self, *other).1)),
    ;
}

impl<Lhs: Duration, Rhs: Duration> DurationOps<Rhs> for Lhs {
    fn plus(self, rhs: Rhs) -> (r: Self) {
        let converted = Self::try_convert_from(rhs).unwrap();
        Self::new(self.count().add_count(converted.count()))
    }

    fn minus(self, rhs: Rhs) -> (r: Self) {
        let converted = Self::try_convert_from(rhs).unwrap();
        Self::new(self.count().sub_count(converted.count()))
    }

    fn remainder(self, rhs: Rhs) -> (r: Self) {
        let divisor = Self::try_convert_from(rhs).unwrap().count();
        let zero = Self::Rep::from_u32(0);
        if zero.lt_count(&divisor) {
            Self::new(self.count().rem_count(divisor))
        } else {
            Self::new(zero)
        }
    }

    fn eq_duration(&self, other: &Rhs) -> (r: bool) {
        if Self::period().is_shorter_than(&Rhs::period()) {
            let converted = Self::try_convert_from(*other).unwrap();
            self.count().eq_count(&converted.count())
        } else {
            let converted = Rhs::try_convert_from(*self).unwrap();
            converted.count().eq_count(&other.count())
        }
    }

    fn partial_cmp_duration(&self, other: &Rhs) -> (r: Option<Ordering>) {
        if Self::period().is_shorter_than(&Rhs::period()) {
            let converted = Self::try_convert_from(*other).unwrap();
            Some(compare_counts(self.count(), converted.count()))
        } else {
            let converted = Rhs::try_convert_from(*self).unwrap();
            Some(compare_counts(converted.count(), other.count()))
        }
    }
}

} // verus!
