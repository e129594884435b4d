//! Clocks and the instants they read.

use vstd::prelude::*;

use crate::duration::{Duration, into_ticks_count};
use crate::error::ConversionError;
use crate::period::Period;
use crate::time_int::TimeInt;
use crate::timer::Timer;
use crate::timer::param::{self, Disarmed, OneShot};

verus! {

/// An abstraction for time-keeping items such as hardware timers.
pub trait Clock: Sized {
    /// The type to hold the tick count.
    type Rep: TimeInt;

    /// The duration of one clock tick in seconds, AKA the clock precision.
    fn period() -> Period;

    /// The current instant. It is read from the clock's hardware, so nothing is
    /// promised of the value.
    fn now() -> Instant<Self>;

    /// A new one-shot timer of this clock, disarmed, with no duration set.
    fn new_timer<Dur: Duration>() -> (t: Timer<OneShot, Disarmed, Self, Dur>)
        ensures
            t.held_duration() is None,
    {
        Timer::<param::Unset, param::Unset, Self, Dur>::new()
    }
}

/// `a + b` on a counter whose largest value is `max`, wrapping around past it.
pub open spec fn wrapped_sum(a: nat, b: nat, max: nat) -> nat {
    if a + b > max {
        (a + b - (max + 1)) as nat
    } else {
        a + b
    }
}

/// `a - b` on a counter whose largest value is `max`, wrapping around below zero.
pub open spec fn wrapped_difference(a: nat, b: nat, max: nat) -> nat {
    if a >= b {
        (a - b) as nat
    } else {
        (a + (max + 1) - b) as nat
    }
}

/// Whether the tick count `a` comes before `b` on a counter that wraps around past
/// `max`: `b` is reached from `a` by moving forward less than half the counter's range,
/// that is, going back from `a` to `b` takes more than half of it.
pub open spec fn ticks_before(a: nat, b: nat, max: nat) -> bool {
    a != b && wrapped_difference(a, b, max) > max / 2
}

/// A point in time on the clock `C`: its tick count, which wraps around past the largest
/// value of `C::Rep`.
pub struct Instant<C: Clock> {
    ticks: C::Rep,
}

impl<C: Clock> Instant<C> {
    /// The tick count.
    pub closed spec fn spec_ticks(self) -> nat {
        self.ticks.as_nat()
    }

    /// The instant at the tick count `ticks`.
    pub fn new(ticks: C::Rep) -> (i: Self)
        ensures
            i.spec_ticks() == ticks.as_nat(),
    {
        Instant { ticks }
    }

    /// The tick count.
    pub fn ticks(&self) -> (t: C::Rep)
        ensures
            t.as_nat() == self.spec_ticks(),
    {
        self.ticks
    }

    /// `self + dur` on a clock whose ticks last `clock_period` seconds: the instant `dur`
    /// later, with `dur` converted to clock ticks; the tick count wraps around. The
    /// conversion's error, where it fails.
    pub fn plus<Dur: Duration>(self, dur: Dur, clock_period: Period) -> (r: Result<
        Self,
        ConversionError,
    >)
        ensures
            match into_ticks_count::<Dur::Rep, C::Rep>(
                dur.spec_count().as_nat(),
                Dur::period_num(),
                Dur::period_den(),
                clock_period.num(),
                clock_period.den(),
            ) {
                Ok(t) => r matches Ok(i) && i.spec_ticks() == wrapped_sum(
                    self.spec_ticks(),
                    t,
                    C::Rep::max_nat(),
                ),
                Err(e) => r matches Err(f) && f == e,
            },
    {
        match dur.into_ticks::<C::Rep>(clock_period) {
            Ok(add_ticks) => Ok(Instant { ticks: self.ticks.wrapping_add(add_ticks) }),
            Err(e) => Err(e),
        }
    }

    /// `self < other`: whether this instant comes before `other` on the wrapping clock.
    pub fn is_before(&self, other: &Self) -> (r: bool)
        ensures
            r == ticks_before(self.spec_ticks(), other.spec_ticks(), C::Rep::max_nat()),
    {
        if self.ticks.eq_count(&other.ticks) {
            false
        } else {
            let half = C::Rep::max_value().half();
            half.lt_count(&self.ticks.wrapping_sub(other.ticks))
        }
    }
}

/// A delay's end comes after its start: an instant is before the instant a positive
/// number of ticks later, up to half the counter's range, whether or not the count wraps.
pub proof fn law_delay_end_is_later(start: nat, delay: nat, max: nat)
    requires
        start <= max,
        0 < delay <= max / 2,
    ensures
        ticks_before(start, wrapped_sum(start, delay, max), max),
{
}

} // verus!
