//! The duration unit types, one per length of unit, and their conversions to and from
//! `CoreDuration`, and the `+`, `-` and `%` operators across units.

use vstd::prelude::*;

use core::ops::{Add, Rem, Sub};

use vstd::std_specs::convert::TryFromSpecImpl;
use vstd::std_specs::ops::{AddSpecImpl, RemSpecImpl, SubSpecImpl};

use crate::arith::DurationOps;
use crate::core_duration::CoreDuration;
use crate::duration::{Duration, TryConvertFrom, converted_count};
use crate::error::ConversionError;
use crate::period::Period;
use crate::time_int::TimeInt;

verus! {

/// A count of hours.
#[derive(Debug, Clone, Copy, PartialEq, Eq)]
pub struct Hours<T: TimeInt = u32>(pub T);

impl<Rep: TimeInt> Duration for Hours<Rep> {
    type Rep = Rep;

    open spec fn period_num() -> nat {
        3600
    }

    open spec fn period_den() -> nat {
        1
    }

    open spec fn spec_count(self) -> Rep {
        self.0
    }

    open spec fn spec_new(value: Rep) -> Self {
        Hours(value)
    }

    proof fn lemma_new_count(value: Rep) {
    }

    fn period() -> (p: Period) {
        Period::new(3600, 1)
    }

    fn new(value: Rep) -> (d: Self) {
        Hours(value)
    }

    fn count(self) -> (r: Rep) {
        self.0
    }
}

impl<Rep: TimeInt> TryFrom<Hours<Rep>> for CoreDuration {
    type Error = ConversionError;

    /// The span of the duration, through its count of seconds as a `u64`.
    fn try_from(duration: Hours<Rep>) -> (r: Result<CoreDuration, ConversionError>) {
        match Seconds::<u64>::try_convert_from(duration) {
            Ok(seconds) => Ok(CoreDuration::from_secs(seconds.count())),
            Err(e) => Err(e),
        }
    }
}

impl<Rep: TimeInt> TryFromSpecImpl<Hours<Rep>> for CoreDuration {
    open spec fn obeys_try_from_spec() -> bool {
        true
    }

    open spec fn try_from_spec(duration: Hours<Rep>) -> Result<CoreDuration, ConversionError> {
        match converted_count::<Hours<Rep>, Seconds<u64>>(duration) {
            Ok(s) => Ok(CoreDuration::from_total_nanos(s * 1_000_000_000)),
            Err(e) => Err(e),
        }
    }
}

impl<Rep: TimeInt> TryFrom<CoreDuration> for Hours<Rep> {
    type Error = ConversionError;

    /// The whole seconds of the span, converted to hours (rounded down).
    fn try_from(core_duration: CoreDuration) -> (r: Result<Self, ConversionError>) {
        let seconds = Seconds(core_duration.as_secs());
        let r = Self::try_convert_from(seconds);
        proof {
            if let Ok(d) = r {
                Rep::lemma_from_nat(d.0.as_nat());
                d.0.lemma_injective(Rep::from_nat(d.0.as_nat()));
            }
        }
        r
    }
}

impl<Rep: TimeInt> TryFromSpecImpl<CoreDuration> for Hours<Rep> {
    open spec fn obeys_try_from_spec() -> bool {
        true
    }

    open spec fn try_from_spec(core_duration: CoreDuration) -> Result<Self, ConversionError> {
        match converted_count::<Seconds<u64>, Self>(
            Seconds((core_duration.total_nanos() / 1_000_000_000) as u64),
        ) {
            Ok(c) => Ok(Hours(Rep::from_nat(c))),
            Err(e) => Err(e),
        }
    }
}

/// A count of minutes.
#[derive(Debug, Clone, Copy, PartialEq, Eq)]
pub struct Minutes<T: TimeInt = u32>(pub T);

impl<Rep: TimeInt> Duration for Minutes<Rep> {
    type Rep = Rep;

    open spec fn period_num() -> nat {
        60
    }

    open spec fn period_den() -> nat {
        1
    }

    open spec fn spec_count(self) -> Rep {
        self.0
    }

    open spec fn spec_new(value: Rep) -> Self {
        Minutes(value)
    }

    proof fn lemma_new_count(value: Rep) {
    }

    fn period() -> (p: Period) {
        Period::new(60, 1)
    }

    fn new(value: Rep) -> (d: Self) {
        Minutes(value)
    }

    fn count(self) -> (r: Rep) {
        self.0
    }
}

impl<Rep: TimeInt> TryFrom<Minutes<Rep>> for CoreDuration {
    type Error = ConversionError;

    /// The span of the duration, through its count of seconds as a `u64`.
    fn try_from(duration: Minutes<Rep>) -> (r: Result<CoreDuration, ConversionError>) {
        match Seconds::<u64>::try_convert_from(duration) {
            Ok(seconds) => Ok(CoreDuration::from_secs(seconds.count())),
            Err(e) => Err(e),
        }
    }
}

impl<Rep: TimeInt> TryFromSpecImpl<Minutes<Rep>> for CoreDuration {
    open spec fn obeys_try_from_spec() -> bool {
        true
    }

    open spec fn try_from_spec(duration: Minutes<Rep>) -> Result<CoreDuration, ConversionError> {
        match converted_count::<Minutes<Rep>, Seconds<u64>>(duration) {
            Ok(s) => Ok(CoreDuration::from_total_nanos(s * 1_000_000_000)),
            Err(e) => Err(e),
        }
    }
}

impl<Rep: TimeInt> TryFrom<CoreDuration> for Minutes<Rep> {
    type Error = ConversionError;

    /// The whole seconds of the span, converted to minutes (rounded down).
    fn try_from(core_duration: CoreDuration) -> (r: Result<Self, ConversionError>) {
        let seconds = Seconds(core_duration.as_secs());
        let r = Self::try_convert_from(seconds);
        proof {
            if let Ok(d) = r {
                Rep::lemma_from_nat(d.0.as_nat());
                d.0.lemma_injective(Rep::from_nat(d.0.as_nat()));
            }
        }
        r
    }
}

impl<Rep: TimeInt> TryFromSpecImpl<CoreDuration> for Minutes<Rep> {
    open spec fn obeys_try_from_spec() -> bool {
        true
    }

    open spec fn try_from_spec(core_duration: CoreDuration) -> Result<Self, ConversionError> {
        match converted_count::<Seconds<u64>, Self>(
            Seconds((core_duration.total_nanos() / 1_000_000_000) as u64),
        ) {
            Ok(c) => Ok(Minutes(Rep::from_nat(c))),
            Err(e) => Err(e),
        }
    }
}

/// A count of seconds.
#[derive(Debug, Clone, Copy, PartialEq, Eq)]
pub struct Seconds<T: TimeInt = u32>(pub T);

impl<Rep: TimeInt> Duration for Seconds<Rep> {
    type Rep = Rep;

    open spec fn period_num() -> nat {
        1
    }

    open spec fn period_den() -> nat {
        1
    }

    open spec fn spec_count(self) -> Rep {
        self.0
    }

    open spec fn spec_new(value: Rep) -> Self {
        Seconds(value)
    }

    proof fn lemma_new_count(value: Rep) {
    }

    fn period() -> (p: Period) {
        Period::new(1, 1)
    }

    fn new(value: Rep) -> (d: Self) {
        Seconds(value)
    }

    fn count(self) -> (r: Rep) {
        self.0
    }
}

impl<Rep: TimeInt> TryFrom<Seconds<Rep>> for CoreDuration {
    type Error = ConversionError;

    /// The span of the duration, through its count of seconds as a `u64`.
    fn try_from(duration: Seconds<Rep>) -> (r: Result<CoreDuration, ConversionError>) {
        match Seconds::<u64>::try_convert_from(duration) {
            Ok(seconds) => Ok(CoreDuration::from_secs(seconds.count())),
            Err(e) => Err(e),
        }
    }
}

impl<Rep: TimeInt> TryFromSpecImpl<Seconds<Rep>> for CoreDuration {
    open spec fn obeys_try_from_spec() -> bool {
        true
    }

    open spec fn try_from_spec(duration: Seconds<Rep>) -> Result<CoreDuration, ConversionError> {
        match converted_count::<Seconds<Rep>, Seconds<u64>>(duration) {
            Ok(s) => Ok(CoreDuration::from_total_nanos(s * 1_000_000_000)),
            Err(e) => Err(e),
        }
    }
}

impl<Rep: TimeInt> TryFrom<CoreDuration> for Seconds<Rep> {
    type Error = ConversionError;

    /// The whole seconds of the span, converted to seconds (rounded down).
    fn try_from(core_duration: CoreDuration) -> (r: Result<Self, ConversionError>) {
        let seconds = Seconds(core_duration.as_secs());
        let r = Self::try_convert_from(seconds);
        proof {
            if let Ok(d) = r {
                Rep::lemma_from_nat(d.0.as_nat());
                d.0.lemma_injective(Rep::from_nat(d.0.as_nat()));
            }
        }
        r
    }
}

impl<Rep: TimeInt> TryFromSpecImpl<CoreDuration> for Seconds<Rep> {
    open spec fn obeys_try_from_spec() -> bool {
        true
    }

    open spec fn try_from_spec(core_duration: CoreDuration) -> Result<Self, ConversionError> {
        match converted_count::<Seconds<u64>, Self>(
            Seconds((core_duration.total_nanos() / 1_000_000_000) as u64),
        ) {
            Ok(c) => Ok(Seconds(Rep::from_nat(c))),
            Err(e) => Err(e),
        }
    }
}

/// A count of milliseconds.
#[derive(Debug, Clone, Copy, PartialEq, Eq)]
pub struct Milliseconds<T: TimeInt = u32>(pub T);

impl<Rep: TimeInt> Duration for Milliseconds<Rep> {
    type Rep = Rep;

    open spec fn period_num() -> nat {
        1
    }

    open spec fn period_den() -> nat {
        1000
    }

    open spec fn spec_count(self) -> Rep {
        self.0
    }

    open spec fn spec_new(value: Rep) -> Self {
        Milliseconds(value)
    }

    proof fn lemma_new_count(value: Rep) {
    }

    fn period() -> (p: Period) {
        Period::new(1, 1000)
    }

    fn new(value: Rep) -> (d: Self) {
        Milliseconds(value)
    }

    fn count(self) -> (r: Rep) {
        self.0
    }
}

impl<Rep: TimeInt> TryFrom<Milliseconds<Rep>> for CoreDuration {
    type Error = ConversionError;

    /// The span of the duration; this never fails.
    fn try_from(duration: Milliseconds<Rep>) -> (r: Result<CoreDuration, ConversionError>) {
        Ok(CoreDuration::from_millis(duration.count().to_u64()))
    }
}

impl<Rep: TimeInt> TryFromSpecImpl<Milliseconds<Rep>> for CoreDuration {
    open spec fn obeys_try_from_spec() -> bool {
        true
    }

    open spec fn try_from_spec(duration: Milliseconds<Rep>) -> Result<CoreDuration, ConversionError> {
        Ok(CoreDuration::from_total_nanos(duration.0.as_nat() * 1_000_000))
    }
}

impl<Rep: TimeInt> TryFrom<CoreDuration> for Milliseconds<Rep> {
    type Error = ConversionError;

    /// The whole milliseconds of the span, which must fit in the count's type.
    fn try_from(core_duration: CoreDuration) -> (r: Result<Self, ConversionError>) {
        match Rep::try_from_u128(core_duration.as_millis()) {
            Some(c) => {
                proof {
                    Rep::lemma_from_nat(c.as_nat());
                    c.lemma_injective(Rep::from_nat(c.as_nat()));
                }
                Ok(Milliseconds(c))
            },
            None => Err(ConversionError::ConversionFailure),
        }
    }
}

impl<Rep: TimeInt> TryFromSpecImpl<CoreDuration> for Milliseconds<Rep> {
    open spec fn obeys_try_from_spec() -> bool {
        true
    }

    open spec fn try_from_spec(core_duration: CoreDuration) -> Result<Self, ConversionError> {
        let count = core_duration.total_nanos() / 1_000_000;
        if count <= Rep::max_nat() {
            Ok(Milliseconds(Rep::from_nat(count)))
        } else {
            Err(ConversionError::ConversionFailure)
        }
    }
}

/// A count of microseconds.
#[derive(Debug, Clone, Copy, PartialEq, Eq)]
pub struct Microseconds<T: TimeInt = u32>(pub T);

impl<Rep: TimeInt> Duration for Microseconds<Rep> {
    type Rep = Rep;

    open spec fn period_num() -> nat {
        1
    }

    open spec fn period_den() -> nat {
        1_000_000
    }

    open spec fn spec_count(self) -> Rep {
        self.0
    }

    open spec fn spec_new(value: Rep) -> Self {
        Microseconds(value)
    }

    proof fn lemma_new_count(value: Rep) {
    }

    fn period() -> (p: Period) {
        Period::new(1, 1_000_000)
    }

    fn new(value: Rep) -> (d: Self) {
        Microseconds(value)
    }

    fn count(self) -> (r: Rep) {
        self.0
    }
}

impl<Rep: TimeInt> TryFrom<Microseconds<Rep>> for CoreDuration {
    type Error = ConversionError;

    /// The span of the duration; this never fails.
    fn try_from(duration: Microseconds<Rep>) -> (r: Result<CoreDuration, ConversionError>) {
        Ok(CoreDuration::from_micros(duration.count().to_u64()))
    }
}

impl<Rep: TimeInt> TryFromSpecImpl<Microseconds<Rep>> for CoreDuration {
    open spec fn obeys_try_from_spec() -> bool {
        true
    }

    open spec fn try_from_spec(duration: Microseconds<Rep>) -> Result<CoreDuration, ConversionError> {
        Ok(CoreDuration::from_total_nanos(duration.0.as_nat() * 1_000))
    }
}

impl<Rep: TimeInt> TryFrom<CoreDuration> for Microseconds<Rep> {
    type Error = ConversionError;

    /// The whole microseconds of the span, which must fit in the count's type.
    fn try_from(core_duration: CoreDuration) -> (r: Result<Self, ConversionError>) {
        match Rep::try_from_u128(core_duration.as_micros()) {
            Some(c) => {
                proof {
                    Rep::lemma_from_nat(c.as_nat());
                    c.lemma_injective(Rep::from_nat(c.as_nat()));
                }
                Ok(Microseconds(c))
            },
            None => Err(ConversionError::ConversionFailure),
        }
    }
}

impl<Rep: TimeInt> TryFromSpecImpl<CoreDuration> for Microseconds<Rep> {
    open spec fn obeys_try_from_spec() -> bool {
        true
    }

    open spec fn try_from_spec(core_duration: CoreDuration) -> Result<Self, ConversionError> {
        let count = core_duration.total_nanos() / 1_000;
        if count <= Rep::max_nat() {
            Ok(Microseconds(Rep::from_nat(count)))
        } else {
            Err(ConversionError::ConversionFailure)
        }
    }
}

/// A count of nanoseconds.
#[derive(Debug, Clone, Copy, PartialEq, Eq)]
pub struct Nanoseconds<T: TimeInt = u32>(pub T);

impl<Rep: TimeInt> Duration for Nanoseconds<Rep> {
    type Rep = Rep;

    open spec fn period_num() -> nat {
        1
    }

    open spec fn period_den() -> nat {
        1_000_000_000
    }

    open spec fn spec_count(self) -> Rep {
        self.0
    }

    open spec fn spec_new(value: Rep) -> Self {
        Nanoseconds(value)
    }

    proof fn lemma_new_count(value: Rep) {
    }

    fn period() -> (p: Period) {
        Period::new(1, 1_000_000_000)
    }

    fn new(value: Rep) -> (d: Self) {
        Nanoseconds(value)
    }

    fn count(self) -> (r: Rep) {
        self.0
    }
}

impl<Rep: TimeInt> TryFrom<Nanoseconds<Rep>> for CoreDuration {
    type Error = ConversionError;

    /// The span of the duration; this never fails.
    fn try_from(duration: Nanoseconds<Rep>) -> (r: Result<CoreDuration, ConversionError>) {
        Ok(CoreDuration::from_nanos(duration.count().to_u64()))
    }
}

impl<Rep: TimeInt> TryFromSpecImpl<Nanoseconds<Rep>> for CoreDuration {
    open spec fn obeys_try_from_spec() -> bool {
        true
    }

    open spec fn try_from_spec(duration: Nanoseconds<Rep>) -> Result<CoreDuration, ConversionError> {
        Ok(CoreDuration::from_total_nanos(duration.0.as_nat()))
    }
}

impl<Rep: TimeInt> TryFrom<CoreDuration> for Nanoseconds<Rep> {
    type Error = ConversionError;

    /// The whole nanoseconds of the span, which must fit in the count's type.
    fn try_from(core_duration: CoreDuration) -> (r: Result<Self, ConversionError>) {
        match Rep::try_from_u128(core_duration.as_nanos()) {
            Some(c) => {
                proof {
                    Rep::lemma_from_nat(c.as_nat());
                    c.lemma_injective(Rep::from_nat(c.as_nat()));
                }
                Ok(Nanoseconds(c))
            },
            None => Err(ConversionError::ConversionFailure),
        }
    }
}

impl<Rep: TimeInt> TryFromSpecImpl<CoreDuration> for Nanoseconds<Rep> {
    open spec fn obeys_try_from_spec() -> bool {
        true
    }

    open spec fn try_from_spec(core_duration: CoreDuration) -> Result<Self, ConversionError> {
        let count = core_duration.total_nanos() / 1;
        if count <= Rep::max_nat() {
            Ok(Nanoseconds(Rep::from_nat(count)))
        } else {
            Err(ConversionError::ConversionFailure)
        }
    }
}

impl<Rep: TimeInt, RhsDur: Duration> Add<RhsDur> for Hours<Rep> {
    type Output = Self;

    /// `self + rhs` in this unit and integer type; see `DurationOps::plus`.
    fn add(self, rhs: RhsDur) -> (r: Self) {
        let sum = self.plus(rhs);
        proof {
            sum.0.lemma_bounds();
            Rep::lemma_from_nat(sum.0.as_nat());
            sum.0.lemma_injective(Rep::from_nat(sum.0.as_nat()));
        }
        sum
    }
}

impl<Rep: TimeInt, RhsDur: Duration> AddSpecImpl<RhsDur> for Hours<Rep> {
    open spec fn obeys_add_spec() -> bool {
        true
    }

    open spec fn add_req(self, rhs: RhsDur) -> bool {
        converted_count::<RhsDur, Self>(rhs) matches Ok(v) && self.0.as_nat() + v <= Rep::max_nat()
    }

    open spec fn add_spec(self, rhs: RhsDur) -> Self {
        Hours(Rep::from_nat(self.0.as_nat() + converted_count::<RhsDur, Self>(rhs)->Ok_0))
    }
}

impl<Rep: TimeInt, RhsDur: Duration> Sub<RhsDur> for Hours<Rep> {
    type Output = Self;

    /// `self - rhs` in this unit and integer type; see `DurationOps::minus`.
    fn sub(self, rhs: RhsDur) -> (r: Self) {
        let difference = self.minus(rhs);
        proof {
            difference.0.lemma_bounds();
            Rep::lemma_from_nat(difference.0.as_nat());
            difference.0.lemma_injective(Rep::from_nat(difference.0.as_nat()));
        }
        difference
    }
}

impl<Rep: TimeInt, RhsDur: Duration> SubSpecImpl<RhsDur> for Hours<Rep> {
    open spec fn obeys_sub_spec() -> bool {
        true
    }

    open spec fn sub_req(self, rhs: RhsDur) -> bool {
        converted_count::<RhsDur, Self>(rhs) matches Ok(v) && v <= self.0.as_nat()
    }

    open spec fn sub_spec(self, rhs: RhsDur) -> Self {
        Hours(Rep::from_nat((self.0.as_nat() - converted_count::<RhsDur, Self>(rhs)->Ok_0) as nat))
    }
}

impl<Rep: TimeInt, RhsDur: Duration> Rem<RhsDur> for Hours<Rep> {
    type Output = Self;

    /// `self % rhs` in this unit and integer type; see `DurationOps::remainder`.
    fn rem(self, rhs: RhsDur) -> (r: Self) {
        let remainder = self.remainder(rhs);
        proof {
            remainder.0.lemma_bounds();
            Rep::lemma_from_nat(remainder.0.as_nat());
            remainder.0.lemma_injective(Rep::from_nat(remainder.0.as_nat()));
        }
        remainder
    }
}

impl<Rep: TimeInt, RhsDur: Duration> RemSpecImpl<RhsDur> for Hours<Rep> {
    open spec fn obeys_rem_spec() -> bool {
        true
    }

    open spec fn rem_req(self, rhs: RhsDur) -> bool {
        converted_count::<RhsDur, Self>(rhs) is Ok
    }

    open spec fn rem_spec(self, rhs: RhsDur) -> Self {
        Hours(
            Rep::from_nat(
                if converted_count::<RhsDur, Self>(rhs)->Ok_0 > 0 {
                    self.0.as_nat() % converted_count::<RhsDur, Self>(rhs)->Ok_0
                } else {
                    0
                },
            ),
        )
    }
}

impl<Rep: TimeInt, RhsDur: Duration> Add<RhsDur> for Minutes<Rep> {
    type Output = Self;

    /// `self + rhs` in this unit and integer type; see `DurationOps::plus`.
    fn add(self, rhs: RhsDur) -> (r: Self) {
        let sum = self.plus(rhs);
        proof {
            sum.0.lemma_bounds();
            Rep::lemma_from_nat(sum.0.as_nat());
            sum.0.lemma_injective(Rep::from_nat(sum.0.as_nat()));
        }
        sum
    }
}

impl<Rep: TimeInt, RhsDur: Duration> AddSpecImpl<RhsDur> for Minutes<Rep> {
    open spec fn obeys_add_spec() -> bool {
        true
    }

    open spec fn add_req(self, rhs: RhsDur) -> bool {
        converted_count::<RhsDur, Self>(rhs) matches Ok(v) && self.0.as_nat() + v <= Rep::max_nat()
    }

    open spec fn add_spec(self, rhs: RhsDur) -> Self {
        Minutes(Rep::from_nat(self.0.as_nat() + converted_count::<RhsDur, Self>(rhs)->Ok_0))
    }
}

impl<Rep: TimeInt, RhsDur: Duration> Sub<RhsDur> for Minutes<Rep> {
    type Output = Self;

    /// `self - rhs` in this unit and integer type; see `DurationOps::minus`.
    fn sub(self, rhs: RhsDur) -> (r: Self) {
        let difference = self.minus(rhs);
        proof {
            difference.0.lemma_bounds();
            Rep::lemma_from_nat(difference.0.as_nat());
            difference.0.lemma_injective(Rep::from_nat(difference.0.as_nat()));
        }
        difference
    }
}

impl<Rep: TimeInt, RhsDur: Duration> SubSpecImpl<RhsDur> for Minutes<Rep> {
    open spec fn obeys_sub_spec() -> bool {
        true
    }

    open spec fn sub_req(self, rhs: RhsDur) -> bool {
        converted_count::<RhsDur, Self>(rhs) matches Ok(v) && v <= self.0.as_nat()
    }

    open spec fn sub_spec(self, rhs: RhsDur) -> Self {
        Minutes(Rep::from_nat((self.0.as_nat() - converted_count::<RhsDur, Self>(rhs)->Ok_0) as nat))
    }
}

impl<Rep: TimeInt, RhsDur: Duration> Rem<RhsDur> for Minutes<Rep> {
    type Output = Self;

    /// `self % rhs` in this unit and integer type; see `DurationOps::remainder`.
    fn rem(self, rhs: RhsDur) -> (r: Self) {
        let remainder = self.remainder(rhs);
        proof {
            remainder.0.lemma_bounds();
            Rep::lemma_from_nat(remainder.0.as_nat());
            remainder.0.lemma_injective(Rep::from_nat(remainder.0.as_nat()));
        }
        remainder
    }
}

impl<Rep: TimeInt, RhsDur: Duration> RemSpecImpl<RhsDur> for Minutes<Rep> {
    open spec fn obeys_rem_spec() -> bool {
        true
    }

    open spec fn rem_req(self, rhs: RhsDur) -> bool {
        converted_count::<RhsDur, Self>(rhs) is Ok
    }

    open spec fn rem_spec(self, rhs: RhsDur) -> Self {
        Minutes(
            Rep::from_nat(
                if converted_count::<RhsDur, Self>(rhs)->Ok_0 > 0 {
                    self.0.as_nat() % converted_count::<RhsDur, Self>(rhs)->Ok_0
                } else {
                    0
                },
            ),
        )
    }
}

impl<Rep: TimeInt, RhsDur: Duration> Add<RhsDur> for Seconds<Rep> {
    type Output = Self;

    /// `self + rhs` in this unit and integer type; see `DurationOps::plus`.
    fn add(self, rhs: RhsDur) -> (r: Self) {
        let sum = self.plus(rhs);
        proof {
            sum.0.lemma_bounds();
            Rep::lemma_from_nat(sum.0.as_nat());
            sum.0.lemma_injective(Rep::from_nat(sum.0.as_nat()));
        }
        sum
    }
}

impl<Rep: TimeInt, RhsDur: Duration> AddSpecImpl<RhsDur> for Seconds<Rep> {
    open spec fn obeys_add_spec() -> bool {
        true
    }

    open spec fn add_req(self, rhs: RhsDur) -> bool {
        converted_count::<RhsDur, Self>(rhs) matches Ok(v) && self.0.as_nat() + v <= Rep::max_nat()
    }

    open spec fn add_spec(self, rhs: RhsDur) -> Self {
        Seconds(Rep::from_nat(self.0.as_nat() + converted_count::<RhsDur, Self>(rhs)->Ok_0))
    }
}

impl<Rep: TimeInt, RhsDur: Duration> Sub<RhsDur> for Seconds<Rep> {
    type Output = Self;

    /// `self - rhs` in this unit and integer type; see `DurationOps::minus`.
    fn sub(self, rhs: RhsDur) -> (r: Self) {
        let difference = self.minus(rhs);
        proof {
            difference.0.lemma_bounds();
            Rep::lemma_from_nat(difference.0.as_nat());
            difference.0.lemma_injective(Rep::from_nat(difference.0.as_nat()));
        }
        difference
    }
}

impl<Rep: TimeInt, RhsDur: Duration> SubSpecImpl<RhsDur> for Seconds<Rep> {
    open spec fn obeys_sub_spec() -> bool {
        true
    }

    open spec fn sub_req(self, rhs: RhsDur) -> bool {
        converted_count::<RhsDur, Self>(rhs) matches Ok(v) && v <= self.0.as_nat()
    }

    open spec fn sub_spec(self, rhs: RhsDur) -> Self {
        Seconds(Rep::from_nat((self.0.as_nat() - converted_count::<RhsDur, Self>(rhs)->Ok_0) as nat))
    }
}

impl<Rep: TimeInt, RhsDur: Duration> Rem<RhsDur> for Seconds<Rep> {
    type Output = Self;

    /// `self % rhs` in this unit and integer type; see `DurationOps::remainder`.
    fn rem(self, rhs: RhsDur) -> (r: Self) {
        let remainder = self.remainder(rhs);
        proof {
            remainder.0.lemma_bounds();
            Rep::lemma_from_nat(remainder.0.as_nat());
            remainder.0.lemma_injective(Rep::from_nat(remainder.0.as_nat()));
        }
        remainder
    }
}

impl<Rep: TimeInt, RhsDur: Duration> RemSpecImpl<RhsDur> for Seconds<Rep> {
    open spec fn obeys_rem_spec() -> bool {
        true
    }

    open spec fn rem_req(self, rhs: RhsDur) -> bool {
        converted_count::<RhsDur, Self>(rhs) is Ok
    }

    open spec fn rem_spec(self, rhs: RhsDur) -> Self {
        Seconds(
            Rep::from_nat(
                if converted_count::<RhsDur, Self>(rhs)->Ok_0 > 0 {
                    self.0.as_nat() % converted_count::<RhsDur, Self>(rhs)->Ok_0
                } else {
                    0
                },
            ),
        )
    }
}

impl<Rep: TimeInt, RhsDur: Duration> Add<RhsDur> for Milliseconds<Rep> {
    type Output = Self;

    /// `self + rhs` in this unit and integer type; see `DurationOps::plus`.
    fn add(self, rhs: RhsDur) -> (r: Self) {
        let sum = self.plus(rhs);
        proof {
            sum.0.lemma_bounds();
            Rep::lemma_from_nat(sum.0.as_nat());
            sum.0.lemma_injective(Rep::from_nat(sum.0.as_nat()));
        }
        sum
    }
}

impl<Rep: TimeInt, RhsDur: Duration> AddSpecImpl<RhsDur> for Milliseconds<Rep> {
    open spec fn obeys_add_spec() -> bool {
        true
    }

    open spec fn add_req(self, rhs: RhsDur) -> bool {
        converted_count::<RhsDur, Self>(rhs) matches Ok(v) && self.0.as_nat() + v <= Rep::max_nat()
    }

    open spec fn add_spec(self, rhs: RhsDur) -> Self {
        Milliseconds(Rep::from_nat(self.0.as_nat() + converted_count::<RhsDur, Self>(rhs)->Ok_0))
    }
}

impl<Rep: TimeInt, RhsDur: Duration> Sub<RhsDur> for Milliseconds<Rep> {
    type Output = Self;

    /// `self - rhs` in this unit and integer type; see `DurationOps::minus`.
    fn sub(self, rhs: RhsDur) -> (r: Self) {
        let difference = self.minus(rhs);
        proof {
            difference.0.lemma_bounds();
            Rep::lemma_from_nat(difference.0.as_nat());
            difference.0.lemma_injective(Rep::from_nat(difference.0.as_nat()));
        }
        difference
    }
}

impl<Rep: TimeInt, RhsDur: Duration> SubSpecImpl<RhsDur> for Milliseconds<Rep> {
    open spec fn obeys_sub_spec() -> bool {
        true
    }

    open spec fn sub_req(self, rhs: RhsDur) -> bool {
        converted_count::<RhsDur, Self>(rhs) matches Ok(v) && v <= self.0.as_nat()
    }

    open spec fn sub_spec(self, rhs: RhsDur) -> Self {
        Milliseconds(Rep::from_nat((self.0.as_nat() - converted_count::<RhsDur, Self>(rhs)->Ok_0) as nat))
    }
}

impl<Rep: TimeInt, RhsDur: Duration> Rem<RhsDur> for Milliseconds<Rep> {
    type Output = Self;

    /// `self % rhs` in this unit and integer type; see `DurationOps::remainder`.
    fn rem(self, rhs: RhsDur) -> (r: Self) {
        let remainder = self.remainder(rhs);
        proof {
            remainder.0.lemma_bounds();
            Rep::lemma_from_nat(remainder.0.as_nat());
            remainder.0.lemma_injective(Rep::from_nat(remainder.0.as_nat()));
        }
        remainder
    }
}

impl<Rep: TimeInt, RhsDur: Duration> RemSpecImpl<RhsDur> for Milliseconds<Rep> {
    open spec fn obeys_rem_spec() -> bool {
        true
    }

    open spec fn rem_req(self, rhs: RhsDur) -> bool {
        converted_count::<RhsDur, Self>(rhs) is Ok
    }

    open spec fn rem_spec(self, rhs: RhsDur) -> Self {
        Milliseconds(
            Rep::from_nat(
                if converted_count::<RhsDur, Self>(rhs)->Ok_0 > 0 {
                    self.0.as_nat() % converted_count::<RhsDur, Self>(rhs)->Ok_0
                } else {
                    0
                },
            ),
        )
    }
}

impl<Rep: TimeInt, RhsDur: Duration> Add<RhsDur> for Microseconds<Rep> {
    type Output = Self;

    /// `self + rhs` in this unit and integer type; see `DurationOps::plus`.
    fn add(self, rhs: RhsDur) -> (r: Self) {
        let sum = self.plus(rhs);
        proof {
            sum.0.lemma_bounds();
            Rep::lemma_from_nat(sum.0.as_nat());
            sum.0.lemma_injective(Rep::from_nat(sum.0.as_nat()));
        }
        sum
    }
}

impl<Rep: TimeInt, RhsDur: Duration> AddSpecImpl<RhsDur> for Microseconds<Rep> {
    open spec fn obeys_add_spec() -> bool {
        true
    }

    open spec fn add_req(self, rhs: RhsDur) -> bool {
        converted_count::<RhsDur, Self>(rhs) matches Ok(v) && self.0.as_nat() + v <= Rep::max_nat()
    }

    open spec fn add_spec(self, rhs: RhsDur) -> Self {
        Microseconds(Rep::from_nat(self.0.as_nat() + converted_count::<RhsDur, Self>(rhs)->Ok_0))
    }
}

impl<Rep: TimeInt, RhsDur: Duration> Sub<RhsDur> for Microseconds<Rep> {
    type Output = Self;

    /// `self - rhs` in this unit and integer type; see `DurationOps::minus`.
    fn sub(self, rhs: RhsDur) -> (r: Self) {
        let difference = self.minus(rhs);
        proof {
            difference.0.lemma_bounds();
            Rep::lemma_from_nat(difference.0.as_nat());
            difference.0.lemma_injective(Rep::from_nat(difference.0.as_nat()));
        }
        difference
    }
}

impl<Rep: TimeInt, RhsDur: Duration> SubSpecImpl<RhsDur> for Microseconds<Rep> {
    open spec fn obeys_sub_spec() -> bool {
        true
    }

    open spec fn sub_req(self, rhs: RhsDur) -> bool {
        converted_count::<RhsDur, Self>(rhs) matches Ok(v) && v <= self.0.as_nat()
    }

    open spec fn sub_spec(self, rhs: RhsDur) -> Self {
        Microseconds(Rep::from_nat((self.0.as_nat() - converted_count::<RhsDur, Self>(rhs)->Ok_0) as nat))
    }
}

impl<Rep: TimeInt, RhsDur: Duration> Rem<RhsDur> for Microseconds<Rep> {
    type Output = Self;

    /// `self % rhs` in this unit and integer type; see `DurationOps::remainder`.
    fn rem(self, rhs: RhsDur) -> (r: Self) {
        let remainder = self.remainder(rhs);
        proof {
            remainder.0.lemma_bounds();
            Rep::lemma_from_nat(remainder.0.as_nat());
            remainder.0.lemma_injective(Rep::from_nat(remainder.0.as_nat()));
        }
        remainder
    }
}

impl<Rep: TimeInt, RhsDur: Duration> RemSpecImpl<RhsDur> for Microseconds<Rep> {
    open spec fn obeys_rem_spec() -> bool {
        true
    }

    open spec fn rem_req(self, rhs: RhsDur) -> bool {
        converted_count::<RhsDur, Self>(rhs) is Ok
    }

    open spec fn rem_spec(self, rhs: RhsDur) -> Self {
        Microseconds(
            Rep::from_nat(
                if converted_count::<RhsDur, Self>(rhs)->Ok_0 > 0 {
                    self.0.as_nat() % converted_count::<RhsDur, Self>(rhs)->Ok_0
                } else {
                    0
                },
            ),
        )
    }
}

impl<Rep: TimeInt, RhsDur: Duration> Add<RhsDur> for Nanoseconds<Rep> {
    type Output = Self;

    /// `self + rhs` in this unit and integer type; see `DurationOps::plus`.
    fn add(self, rhs: RhsDur) -> (r: Self) {
        let sum = self.plus(rhs);
        proof {
            sum.0.lemma_bounds();
            Rep::lemma_from_nat(sum.0.as_nat());
            sum.0.lemma_injective(Rep::from_nat(sum.0.as_nat()));
        }
        sum
    }
}

impl<Rep: TimeInt, RhsDur: Duration> AddSpecImpl<RhsDur> for Nanoseconds<Rep> {
    open spec fn obeys_add_spec() -> bool {
        true
    }

    open spec fn add_req(self, rhs: RhsDur) -> bool {
        converted_count::<RhsDur, Self>(rhs) matches Ok(v) && self.0.as_nat() + v <= Rep::max_nat()
    }

    open spec fn add_spec(self, rhs: RhsDur) -> Self {
        Nanoseconds(Rep::from_nat(self.0.as_nat() + converted_count::<RhsDur, Self>(rhs)->Ok_0))
    }
}

impl<Rep: TimeInt, RhsDur: Duration> Sub<RhsDur> for Nanoseconds<Rep> {
    type Output = Self;

    /// `self - rhs` in this unit and integer type; see `DurationOps::minus`.
    fn sub(self, rhs: RhsDur) -> (r: Self) {
        let difference = self.minus(rhs);
        proof {
            difference.0.lemma_bounds();
            Rep::lemma_from_nat(difference.0.as_nat());
            difference.0.lemma_injective(Rep::from_nat(difference.0.as_nat()));
        }
        difference
    }
}

impl<Rep: TimeInt, RhsDur: Duration> SubSpecImpl<RhsDur> for Nanoseconds<Rep> {
    open spec fn obeys_sub_spec() -> bool {
        true
    }

    open spec fn sub_req(self, rhs: RhsDur) -> bool {
        converted_count::<RhsDur, Self>(rhs) matches Ok(v) && v <= self.0.as_nat()
    }

    open spec fn sub_spec(self, rhs: RhsDur) -> Self {
        Nanoseconds(Rep::from_nat((self.0.as_nat() - converted_count::<RhsDur, Self>(rhs)->Ok_0) as nat))
    }
}

impl<Rep: TimeInt, RhsDur: Duration> Rem<RhsDur> for Nanoseconds<Rep> {
    type Output = Self;

    /// `self % rhs` in this unit and integer type; see `DurationOps::remainder`.
    fn rem(self, rhs: RhsDur) -> (r: Self) {
        let remainder = self.remainder(rhs);
        proof {
            remainder.0.lemma_bounds();
            Rep::lemma_from_nat(remainder.0.as_nat());
            remainder.0.lemma_injective(Rep::from_nat(remainder.0.as_nat()));
        }
        remainder
    }
}

impl<Rep: TimeInt, RhsDur: Duration> RemSpecImpl<RhsDur> for Nanoseconds<Rep> {
    open spec fn obeys_rem_spec() -> bool {
        true
    }

    open spec fn rem_req(self, rhs: RhsDur) -> bool {
        converted_count::<RhsDur, Self>(rhs) is Ok
    }

    open spec fn rem_spec(self, rhs: RhsDur) -> Self {
        Nanoseconds(
            Rep::from_nat(
                if converted_count::<RhsDur, Self>(rhs)->Ok_0 > 0 {
                    self.0.as_nat() % converted_count::<RhsDur, Self>(rhs)->Ok_0
                } else {
                    0
                },
            ),
        )
    }
}

} // verus!
