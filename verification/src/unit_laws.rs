//! What the operators and the conversions to and from `CoreDuration` of each unit type
//! compute, stated in terms of lengths of time: the right-hand side of `+`, `-` and `%` is
//! counted in the left-hand side's unit (its length divided by that unit, rounded down),
//! and a conversion to or from a span keeps its length (rounded down to whole units).

use vstd::prelude::*;

use vstd::arithmetic::div_mod::{lemma_div_by_multiple, lemma_div_is_ordered, lemma_mod_bound};
use vstd::std_specs::convert::TryFromSpec;
use vstd::std_specs::ops::{AddSpec, RemSpec, SubSpec};

use crate::core_duration::CoreDuration;
use crate::duration::{Duration, exact_count};
use crate::error::ConversionError;
use crate::laws::{is_simple_period, law_conversion_fails_only_when_too_large};
use crate::time_int::TimeInt;
use crate::units::{Hours, Microseconds, Milliseconds, Minutes, Nanoseconds, Seconds};

verus! {

/// `count * k / 1_000_000_000` fits in `u64` for a `u64` count and `k` up to a billion.
proof fn lemma_whole_seconds_fit(count: nat, k: nat)
    requires
        count <= u64::MAX,
        k <= 1_000_000_000,
    ensures
        (count * k) / 1_000_000_000 <= u64::MAX,
{
    assert(count * k <= count * 1_000_000_000) by (nonlinear_arith)
        requires
            k <= 1_000_000_000,
    ;
    lemma_div_is_ordered((count * k) as int, (count * 1_000_000_000) as int, 1_000_000_000);
    lemma_div_by_multiple(count as int, 1_000_000_000);
}

/// `l + r` adds to `l`'s count the length of `r` counted in hours (rounded down),
/// whenever that sum fits.
pub proof fn law_hours_add<Rep: TimeInt, R: Duration>(l: Hours<Rep>, r: R)
    requires
        is_simple_period(R::period_num(), R::period_den()),
        l.0.as_nat() + exact_count(r.spec_count().as_nat(), R::period_num(), R::period_den(), 3600, 1) <= Rep::max_nat(),
    ensures
        l.add_req(r),
        l.add_spec(r).0.as_nat() == l.0.as_nat() + exact_count(r.spec_count().as_nat(), R::period_num(), R::period_den(), 3600, 1),
{
    law_conversion_fails_only_when_too_large::<R, Hours<Rep>>(r);
    Rep::lemma_from_nat(l.0.as_nat() + exact_count(r.spec_count().as_nat(), R::period_num(), R::period_den(), 3600, 1));
}

/// `l - r` takes from `l`'s count the length of `r` counted in hours (rounded down),
/// whenever that is not more than `l`'s count.
pub proof fn law_hours_sub<Rep: TimeInt, R: Duration>(l: Hours<Rep>, r: R)
    requires
        is_simple_period(R::period_num(), R::period_den()),
        exact_count(r.spec_count().as_nat(), R::period_num(), R::period_den(), 3600, 1) <= l.0.as_nat(),
    ensures
        l.sub_req(r),
        l.sub_spec(r).0.as_nat() == l.0.as_nat() - exact_count(r.spec_count().as_nat(), R::period_num(), R::period_den(), 3600, 1),
{
    law_conversion_fails_only_when_too_large::<R, Hours<Rep>>(r);
    l.0.lemma_bounds();
    Rep::lemma_from_nat((l.0.as_nat() - exact_count(r.spec_count().as_nat(), R::period_num(), R::period_den(), 3600, 1)) as nat);
}

/// `l % r` is `l`'s count modulo the length of `r` counted in hours (rounded down), and
/// zero when that length is zero, whenever that length fits.
pub proof fn law_hours_rem<Rep: TimeInt, R: Duration>(l: Hours<Rep>, r: R)
    requires
        is_simple_period(R::period_num(), R::period_den()),
        exact_count(r.spec_count().as_nat(), R::period_num(), R::period_den(), 3600, 1) <= Rep::max_nat(),
    ensures
        l.rem_req(r),
        l.rem_spec(r).0.as_nat() == if exact_count(r.spec_count().as_nat(), R::period_num(), R::period_den(), 3600, 1) > 0 {
            l.0.as_nat() % exact_count(r.spec_count().as_nat(), R::period_num(), R::period_den(), 3600, 1)
        } else {
            0
        },
{
    let v = exact_count(r.spec_count().as_nat(), R::period_num(), R::period_den(), 3600, 1);
    law_conversion_fails_only_when_too_large::<R, Hours<Rep>>(r);
    if v > 0 {
        lemma_mod_bound(l.0.as_nat() as int, v as int);
        Rep::lemma_from_nat(l.0.as_nat() % v);
    } else {
        Rep::lemma_from_nat(0);
    }
}

/// Converting a span to hours gives its whole hours, whenever they fit, and otherwise a
/// `ConversionFailure`.
pub proof fn law_hours_from_core<Rep: TimeInt>(c: CoreDuration)
    requires
        c.subsec() < 1_000_000_000,
    ensures
        <Hours<Rep> as TryFromSpec<CoreDuration>>::try_from_spec(c) is Ok <==> c.whole_secs() / 3600
            <= Rep::max_nat(),
        <Hours<Rep> as TryFromSpec<CoreDuration>>::try_from_spec(c) matches Ok(u) ==> u.0.as_nat()
            == c.whole_secs() / 3600,
        <Hours<Rep> as TryFromSpec<CoreDuration>>::try_from_spec(c) matches Err(e) ==> e
            == ConversionError::ConversionFailure,
{
    c.lemma_whole_seconds();
    let s = c.whole_secs();
    law_conversion_fails_only_when_too_large::<Seconds<u64>, Hours<Rep>>(Seconds(s as u64));
    assert((s as u64) as nat == s);
    assert(Seconds(s as u64).spec_count().as_nat() == s);
    assert(s * 1 * 1 == s && 1 * 3600 == 3600);
    assert(exact_count(s, 1, 1, 3600, 1) == s / 3600);
    if s / 3600 <= Rep::max_nat() {
        Rep::lemma_from_nat(s / 3600);
    }
    Rep::lemma_width();
}

/// Converting hours to a span keeps their length, whenever its seconds fit in `u64`.
pub proof fn law_core_from_hours<Rep: TimeInt>(d: Hours<Rep>)
    ensures
        <CoreDuration as TryFromSpec<Hours<Rep>>>::try_from_spec(d) is Ok <==> d.0.as_nat() * 3600
            <= u64::MAX,
        <CoreDuration as TryFromSpec<Hours<Rep>>>::try_from_spec(d) matches Ok(s) ==> s.total_nanos()
            == d.0.as_nat() * 3600 * 1_000_000_000,
{
    law_conversion_fails_only_when_too_large::<Hours<Rep>, Seconds<u64>>(d);
    let t = d.0.as_nat();
    assert(exact_count(t, 3600, 1, 1, 1) == t * 3600) by {
        assert(t * 3600 * 1 == t * 3600 && 1 * 1 == 1);
        lemma_div_by_multiple((t * 3600) as int, 1);
    }
    if t * 3600 <= u64::MAX {
        lemma_div_by_multiple((t * 3600) as int, 1_000_000_000);
        CoreDuration::lemma_from_total_nanos(t * 3600 * 1_000_000_000);
    }
}

/// `l + r` adds to `l`'s count the length of `r` counted in minutes (rounded down),
/// whenever that sum fits.
pub proof fn law_minutes_add<Rep: TimeInt, R: Duration>(l: Minutes<Rep>, r: R)
    requires
        is_simple_period(R::period_num(), R::period_den()),
        l.0.as_nat() + exact_count(r.spec_count().as_nat(), R::period_num(), R::period_den(), 60, 1) <= Rep::max_nat(),
    ensures
        l.add_req(r),
        l.add_spec(r).0.as_nat() == l.0.as_nat() + exact_count(r.spec_count().as_nat(), R::period_num(), R::period_den(), 60, 1),
{
    law_conversion_fails_only_when_too_large::<R, Minutes<Rep>>(r);
    Rep::lemma_from_nat(l.0.as_nat() + exact_count(r.spec_count().as_nat(), R::period_num(), R::period_den(), 60, 1));
}

/// `l - r` takes from `l`'s count the length of `r` counted in minutes (rounded down),
/// whenever that is not more than `l`'s count.
pub proof fn law_minutes_sub<Rep: TimeInt, R: Duration>(l: Minutes<Rep>, r: R)
    requires
        is_simple_period(R::period_num(), R::period_den()),
        exact_count(r.spec_count().as_nat(), R::period_num(), R::period_den(), 60, 1) <= l.0.as_nat(),
    ensures
        l.sub_req(r),
        l.sub_spec(r).0.as_nat() == l.0.as_nat() - exact_count(r.spec_count().as_nat(), R::period_num(), R::period_den(), 60, 1),
{
    law_conversion_fails_only_when_too_large::<R, Minutes<Rep>>(r);
    l.0.lemma_bounds();
    Rep::lemma_from_nat((l.0.as_nat() - exact_count(r.spec_count().as_nat(), R::period_num(), R::period_den(), 60, 1)) as nat);
}

/// `l % r` is `l`'s count modulo the length of `r` counted in minutes (rounded down), and
/// zero when that length is zero, whenever that length fits.
pub proof fn law_minutes_rem<Rep: TimeInt, R: Duration>(l: Minutes<Rep>, r: R)
    requires
        is_simple_period(R::period_num(), R::period_den()),
        exact_count(r.spec_count().as_nat(), R::period_num(), R::period_den(), 60, 1) <= Rep::max_nat(),
    ensures
        l.rem_req(r),
        l.rem_spec(r).0.as_nat() == if exact_count(r.spec_count().as_nat(), R::period_num(), R::period_den(), 60, 1) > 0 {
            l.0.as_nat() % exact_count(r.spec_count().as_nat(), R::period_num(), R::period_den(), 60, 1)
        } else {
            0
        },
{
    let v = exact_count(r.spec_count().as_nat(), R::period_num(), R::period_den(), 60, 1);
    law_conversion_fails_only_when_too_large::<R, Minutes<Rep>>(r);
    if v > 0 {
        lemma_mod_bound(l.0.as_nat() as int, v as int);
        Rep::lemma_from_nat(l.0.as_nat() % v);
    } else {
        Rep::lemma_from_nat(0);
    }
}

/// Converting a span to minutes gives its whole minutes, whenever they fit, and otherwise a
/// `ConversionFailure`.
pub proof fn law_minutes_from_core<Rep: TimeInt>(c: CoreDuration)
    requires
        c.subsec() < 1_000_000_000,
    ensures
        <Minutes<Rep> as TryFromSpec<CoreDuration>>::try_from_spec(c) is Ok <==> c.whole_secs() / 60
            <= Rep::max_nat(),
        <Minutes<Rep> as TryFromSpec<CoreDuration>>::try_from_spec(c) matches Ok(u) ==> u.0.as_nat()
            == c.whole_secs() / 60,
        <Minutes<Rep> as TryFromSpec<CoreDuration>>::try_from_spec(c) matches Err(e) ==> e
            == ConversionError::ConversionFailure,
{
    c.lemma_whole_seconds();
    let s = c.whole_secs();
    law_conversion_fails_only_when_too_large::<Seconds<u64>, Minutes<Rep>>(Seconds(s as u64));
    assert((s as u64) as nat == s);
    assert(Seconds(s as u64).spec_count().as_nat() == s);
    assert(s * 1 * 1 == s && 1 * 60 == 60);
    assert(exact_count(s, 1, 1, 60, 1) == s / 60);
    if s / 60 <= Rep::max_nat() {
        Rep::lemma_from_nat(s / 60);
    }
    Rep::lemma_width();
}

/// Converting minutes to a span keeps their length, whenever its seconds fit in `u64`.
pub proof fn law_core_from_minutes<Rep: TimeInt>(d: Minutes<Rep>)
    ensures
        <CoreDuration as TryFromSpec<Minutes<Rep>>>::try_from_spec(d) is Ok <==> d.0.as_nat() * 60
            <= u64::MAX,
        <CoreDuration as TryFromSpec<Minutes<Rep>>>::try_from_spec(d) matches Ok(s) ==> s.total_nanos()
            == d.0.as_nat() * 60 * 1_000_000_000,
{
    law_conversion_fails_only_when_too_large::<Minutes<Rep>, Seconds<u64>>(d);
    let t = d.0.as_nat();
    assert(exact_count(t, 60, 1, 1, 1) == t * 60) by {
        assert(t * 60 * 1 == t * 60 && 1 * 1 == 1);
        lemma_div_by_multiple((t * 60) as int, 1);
    }
    if t * 60 <= u64::MAX {
        lemma_div_by_multiple((t * 60) as int, 1_000_000_000);
        CoreDuration::lemma_from_total_nanos(t * 60 * 1_000_000_000);
    }
}

/// `l + r` adds to `l`'s count the length of `r` counted in seconds (rounded down),
/// whenever that sum fits.
pub proof fn law_seconds_add<Rep: TimeInt, R: Duration>(l: Seconds<Rep>, r: R)
    requires
        is_simple_period(R::period_num(), R::period_den()),
        l.0.as_nat() + exact_count(r.spec_count().as_nat(), R::period_num(), R::period_den(), 1, 1) <= Rep::max_nat(),
    ensures
        l.add_req(r),
        l.add_spec(r).0.as_nat() == l.0.as_nat() + exact_count(r.spec_count().as_nat(), R::period_num(), R::period_den(), 1, 1),
{
    law_conversion_fails_only_when_too_large::<R, Seconds<Rep>>(r);
    Rep::lemma_from_nat(l.0.as_nat() + exact_count(r.spec_count().as_nat(), R::period_num(), R::period_den(), 1, 1));
}

/// `l - r` takes from `l`'s count the length of `r` counted in seconds (rounded down),
/// whenever that is not more than `l`'s count.
pub proof fn law_seconds_sub<Rep: TimeInt, R: Duration>(l: Seconds<Rep>, r: R)
    requires
        is_simple_period(R::period_num(), R::period_den()),
        exact_count(r.spec_count().as_nat(), R::period_num(), R::period_den(), 1, 1) <= l.0.as_nat(),
    ensures
        l.sub_req(r),
        l.sub_spec(r).0.as_nat() == l.0.as_nat() - exact_count(r.spec_count().as_nat(), R::period_num(), R::period_den(), 1, 1),
{
    law_conversion_fails_only_when_too_large::<R, Seconds<Rep>>(r);
    l.0.lemma_bounds();
    Rep::lemma_from_nat((l.0.as_nat() - exact_count(r.spec_count().as_nat(), R::period_num(), R::period_den(), 1, 1)) as nat);
}

/// `l % r` is `l`'s count modulo the length of `r` counted in seconds (rounded down), and
/// zero when that length is zero, whenever that length fits.
pub proof fn law_seconds_rem<Rep: TimeInt, R: Duration>(l: Seconds<Rep>, r: R)
    requires
        is_simple_period(R::period_num(), R::period_den()),
        exact_count(r.spec_count().as_nat(), R::period_num(), R::period_den(), 1, 1) <= Rep::max_nat(),
    ensures
        l.rem_req(r),
        l.rem_spec(r).0.as_nat() == if exact_count(r.spec_count().as_nat(), R::period_num(), R::period_den(), 1, 1) > 0 {
            l.0.as_nat() % exact_count(r.spec_count().as_nat(), R::period_num(), R::period_den(), 1, 1)
        } else {
            0
        },
{
    let v = exact_count(r.spec_count().as_nat(), R::period_num(), R::period_den(), 1, 1);
    law_conversion_fails_only_when_too_large::<R, Seconds<Rep>>(r);
    if v > 0 {
        lemma_mod_bound(l.0.as_nat() as int, v as int);
        Rep::lemma_from_nat(l.0.as_nat() % v);
    } else {
        Rep::lemma_from_nat(0);
    }
}

/// Converting a span to seconds gives its whole seconds, whenever they fit, and otherwise a
/// `ConversionFailure`.
pub proof fn law_seconds_from_core<Rep: TimeInt>(c: CoreDuration)
    requires
        c.subsec() < 1_000_000_000,
    ensures
        <Seconds<Rep> as TryFromSpec<CoreDuration>>::try_from_spec(c) is Ok <==> c.whole_secs() / 1
            <= Rep::max_nat(),
        <Seconds<Rep> as TryFromSpec<CoreDuration>>::try_from_spec(c) matches Ok(u) ==> u.0.as_nat()
            == c.whole_secs() / 1,
        <Seconds<Rep> as TryFromSpec<CoreDuration>>::try_from_spec(c) matches Err(e) ==> e
            == ConversionError::ConversionFailure,
{
    c.lemma_whole_seconds();
    let s = c.whole_secs();
    law_conversion_fails_only_when_too_large::<Seconds<u64>, Seconds<Rep>>(Seconds(s as u64));
    assert((s as u64) as nat == s);
    assert(Seconds(s as u64).spec_count().as_nat() == s);
    assert(s * 1 * 1 == s && 1 * 1 == 1);
    assert(exact_count(s, 1, 1, 1, 1) == s / 1);
    if s / 1 <= Rep::max_nat() {
        Rep::lemma_from_nat(s / 1);
    }
    Rep::lemma_width();
}

/// Converting seconds to a span keeps their length, whenever its seconds fit in `u64`.
pub proof fn law_core_from_seconds<Rep: TimeInt>(d: Seconds<Rep>)
    ensures
        <CoreDuration as TryFromSpec<Seconds<Rep>>>::try_from_spec(d) is Ok <==> d.0.as_nat() * 1
            <= u64::MAX,
        <CoreDuration as TryFromSpec<Seconds<Rep>>>::try_from_spec(d) matches Ok(s) ==> s.total_nanos()
            == d.0.as_nat() * 1 * 1_000_000_000,
{
    law_conversion_fails_only_when_too_large::<Seconds<Rep>, Seconds<u64>>(d);
    let t = d.0.as_nat();
    assert(exact_count(t, 1, 1, 1, 1) == t * 1) by {
        assert(t * 1 * 1 == t * 1 && 1 * 1 == 1);
        lemma_div_by_multiple((t * 1) as int, 1);
    }
    if t * 1 <= u64::MAX {
        lemma_div_by_multiple((t * 1) as int, 1_000_000_000);
        CoreDuration::lemma_from_total_nanos(t * 1 * 1_000_000_000);
    }
}

/// `l + r` adds to `l`'s count the length of `r` counted in milliseconds (rounded down),
/// whenever that sum fits.
pub proof fn law_milliseconds_add<Rep: TimeInt, R: Duration>(l: Milliseconds<Rep>, r: R)
    requires
        is_simple_period(R::period_num(), R::period_den()),
        l.0.as_nat() + exact_count(r.spec_count().as_nat(), R::period_num(), R::period_den(), 1, 1000) <= Rep::max_nat(),
    ensures
        l.add_req(r),
        l.add_spec(r).0.as_nat() == l.0.as_nat() + exact_count(r.spec_count().as_nat(), R::period_num(), R::period_den(), 1, 1000),
{
    law_conversion_fails_only_when_too_large::<R, Milliseconds<Rep>>(r);
    Rep::lemma_from_nat(l.0.as_nat() + exact_count(r.spec_count().as_nat(), R::period_num(), R::period_den(), 1, 1000));
}

/// `l - r` takes from `l`'s count the length of `r` counted in milliseconds (rounded down),
/// whenever that is not more than `l`'s count.
pub proof fn law_milliseconds_sub<Rep: TimeInt, R: Duration>(l: Milliseconds<Rep>, r: R)
    requires
        is_simple_period(R::period_num(), R::period_den()),
        exact_count(r.spec_count().as_nat(), R::period_num(), R::period_den(), 1, 1000) <= l.0.as_nat(),
    ensures
        l.sub_req(r),
        l.sub_spec(r).0.as_nat() == l.0.as_nat() - exact_count(r.spec_count().as_nat(), R::period_num(), R::period_den(), 1, 1000),
{
    law_conversion_fails_only_when_too_large::<R, Milliseconds<Rep>>(r);
    l.0.lemma_bounds();
    Rep::lemma_from_nat((l.0.as_nat() - exact_count(r.spec_count().as_nat(), R::period_num(), R::period_den(), 1, 1000)) as nat);
}

/// `l % r` is `l`'s count modulo the length of `r` counted in milliseconds (rounded down), and
/// zero when that length is zero, whenever that length fits.
pub proof fn law_milliseconds_rem<Rep: TimeInt, R: Duration>(l: Milliseconds<Rep>, r: R)
    requires
        is_simple_period(R::period_num(), R::period_den()),
        exact_count(r.spec_count().as_nat(), R::period_num(), R::period_den(), 1, 1000) <= Rep::max_nat(),
    ensures
        l.rem_req(r),
        l.rem_spec(r).0.as_nat() == if exact_count(r.spec_count().as_nat(), R::period_num(), R::period_den(), 1, 1000) > 0 {
            l.0.as_nat() % exact_count(r.spec_count().as_nat(), R::period_num(), R::period_den(), 1, 1000)
        } else {
            0
        },
{
    let v = exact_count(r.spec_count().as_nat(), R::period_num(), R::period_den(), 1, 1000);
    law_conversion_fails_only_when_too_large::<R, Milliseconds<Rep>>(r);
    if v > 0 {
        lemma_mod_bound(l.0.as_nat() as int, v as int);
        Rep::lemma_from_nat(l.0.as_nat() % v);
    } else {
        Rep::lemma_from_nat(0);
    }
}

/// Converting a span to milliseconds gives its whole milliseconds, whenever they fit, and otherwise a
/// `ConversionFailure`.
pub proof fn law_milliseconds_from_core<Rep: TimeInt>(c: CoreDuration)
    ensures
        <Milliseconds<Rep> as TryFromSpec<CoreDuration>>::try_from_spec(c) is Ok <==> c.total_nanos() / 1_000_000
            <= Rep::max_nat(),
        <Milliseconds<Rep> as TryFromSpec<CoreDuration>>::try_from_spec(c) matches Ok(u) ==> u.0.as_nat()
            == c.total_nanos() / 1_000_000,
        <Milliseconds<Rep> as TryFromSpec<CoreDuration>>::try_from_spec(c) matches Err(e) ==> e
            == ConversionError::ConversionFailure,
{
    if c.total_nanos() / 1_000_000 <= Rep::max_nat() {
        Rep::lemma_from_nat(c.total_nanos() / 1_000_000);
    }
}

/// Converting milliseconds to a span keeps their length: it always succeeds.
pub proof fn law_core_from_milliseconds<Rep: TimeInt>(d: Milliseconds<Rep>)
    ensures
        <CoreDuration as TryFromSpec<Milliseconds<Rep>>>::try_from_spec(d) matches Ok(s) && s.total_nanos()
            == d.0.as_nat() * 1_000_000,
{
    d.0.lemma_bounds();
    Rep::lemma_width();
    lemma_whole_seconds_fit(d.0.as_nat(), 1_000_000);
    CoreDuration::lemma_from_total_nanos(d.0.as_nat() * 1_000_000);
}

/// `l + r` adds to `l`'s count the length of `r` counted in microseconds (rounded down),
/// whenever that sum fits.
pub proof fn law_microseconds_add<Rep: TimeInt, R: Duration>(l: Microseconds<Rep>, r: R)
    requires
        is_simple_period(R::period_num(), R::period_den()),
        l.0.as_nat() + exact_count(r.spec_count().as_nat(), R::period_num(), R::period_den(), 1, 1_000_000) <= Rep::max_nat(),
    ensures
        l.add_req(r),
        l.add_spec(r).0.as_nat() == l.0.as_nat() + exact_count(r.spec_count().as_nat(), R::period_num(), R::period_den(), 1, 1_000_000),
{
    law_conversion_fails_only_when_too_large::<R, Microseconds<Rep>>(r);
    Rep::lemma_from_nat(l.0.as_nat() + exact_count(r.spec_count().as_nat(), R::period_num(), R::period_den(), 1, 1_000_000));
}

/// `l - r` takes from `l`'s count the length of `r` counted in microseconds (rounded down),
/// whenever that is not more than `l`'s count.
pub proof fn law_microseconds_sub<Rep: TimeInt, R: Duration>(l: Microseconds<Rep>, r: R)
    requires
        is_simple_period(R::period_num(), R::period_den()),
        exact_count(r.spec_count().as_nat(), R::period_num(), R::period_den(), 1, 1_000_000) <= l.0.as_nat(),
    ensures
        l.sub_req(r),
        l.sub_spec(r).0.as_nat() == l.0.as_nat() - exact_count(r.spec_count().as_nat(), R::period_num(), R::period_den(), 1, 1_000_000),
{
    law_conversion_fails_only_when_too_large::<R, Microseconds<Rep>>(r);
    l.0.lemma_bounds();
    Rep::lemma_from_nat((l.0.as_nat() - exact_count(r.spec_count().as_nat(), R::period_num(), R::period_den(), 1, 1_000_000)) as nat);
}

/// `l % r` is `l`'s count modulo the length of `r` counted in microseconds (rounded down), and
/// zero when that length is zero, whenever that length fits.
pub proof fn law_microseconds_rem<Rep: TimeInt, R: Duration>(l: Microseconds<Rep>, r: R)
    requires
        is_simple_period(R::period_num(), R::period_den()),
        exact_count(r.spec_count().as_nat(), R::period_num(), R::period_den(), 1, 1_000_000) <= Rep::max_nat(),
    ensures
        l.rem_req(r),
        l.rem_spec(r).0.as_nat() == if exact_count(r.spec_count().as_nat(), R::period_num(), R::period_den(), 1, 1_000_000) > 0 {
            l.0.as_nat() % exact_count(r.spec_count().as_nat(), R::period_num(), R::period_den(), 1, 1_000_000)
        } else {
            0
        },
{
    let v = exact_count(r.spec_count().as_nat(), R::period_num(), R::period_den(), 1, 1_000_000);
    law_conversion_fails_only_when_too_large::<R, Microseconds<Rep>>(r);
    if v > 0 {
        lemma_mod_bound(l.0.as_nat() as int, v as int);
        Rep::lemma_from_nat(l.0.as_nat() % v);
    } else {
        Rep::lemma_from_nat(0);
    }
}

/// Converting a span to microseconds gives its whole microseconds, whenever they fit, and otherwise a
/// `ConversionFailure`.
pub proof fn law_microseconds_from_core<Rep: TimeInt>(c: CoreDuration)
    ensures
        <Microseconds<Rep> as TryFromSpec<CoreDuration>>::try_from_spec(c) is Ok <==> c.total_nanos() / 1000
            <= Rep::max_nat(),
        <Microseconds<Rep> as TryFromSpec<CoreDuration>>::try_from_spec(c) matches Ok(u) ==> u.0.as_nat()
            == c.total_nanos() / 1000,
        <Microseconds<Rep> as TryFromSpec<CoreDuration>>::try_from_spec(c) matches Err(e) ==> e
            == ConversionError::ConversionFailure,
{
    if c.total_nanos() / 1000 <= Rep::max_nat() {
        Rep::lemma_from_nat(c.total_nanos() / 1000);
    }
}

/// Converting microseconds to a span keeps their length: it always succeeds.
pub proof fn law_core_from_microseconds<Rep: TimeInt>(d: Microseconds<Rep>)
    ensures
        <CoreDuration as TryFromSpec<Microseconds<Rep>>>::try_from_spec(d) matches Ok(s) && s.total_nanos()
            == d.0.as_nat() * 1000,
{
    d.0.lemma_bounds();
    Rep::lemma_width();
    lemma_whole_seconds_fit(d.0.as_nat(), 1000);
    CoreDuration::lemma_from_total_nanos(d.0.as_nat() * 1000);
}

/// `l + r` adds to `l`'s count the length of `r` counted in nanoseconds (rounded down),
/// whenever that sum fits.
pub proof fn law_nanoseconds_add<Rep: TimeInt, R: Duration>(l: Nanoseconds<Rep>, r: R)
    requires
        is_simple_period(R::period_num(), R::period_den()),
        l.0.as_nat() + exact_count(r.spec_count().as_nat(), R::period_num(), R::period_den(), 1, 1_000_000_000) <= Rep::max_nat(),
    ensures
        l.add_req(r),
        l.add_spec(r).0.as_nat() == l.0.as_nat() + exact_count(r.spec_count().as_nat(), R::period_num(), R::period_den(), 1, 1_000_000_000),
{
    law_conversion_fails_only_when_too_large::<R, Nanoseconds<Rep>>(r);
    Rep::lemma_from_nat(l.0.as_nat() + exact_count(r.spec_count().as_nat(), R::period_num(), R::period_den(), 1, 1_000_000_000));
}

/// `l - r` takes from `l`'s count the length of `r` counted in nanoseconds (rounded down),
/// whenever that is not more than `l`'s count.
pub proof fn law_nanoseconds_sub<Rep: TimeInt, R: Duration>(l: Nanoseconds<Rep>, r: R)
    requires
        is_simple_period(R::period_num(), R::period_den()),
        exact_count(r.spec_count().as_nat(), R::period_num(), R::period_den(), 1, 1_000_000_000) <= l.0.as_nat(),
    ensures
        l.sub_req(r),
        l.sub_spec(r).0.as_nat() == l.0.as_nat() - exact_count(r.spec_count().as_nat(), R::period_num(), R::period_den(), 1, 1_000_000_000),
{
    law_conversion_fails_only_when_too_large::<R, Nanoseconds<Rep>>(r);
    l.0.lemma_bounds();
    Rep::lemma_from_nat((l.0.as_nat() - exact_count(r.spec_count().as_nat(), R::period_num(), R::period_den(), 1, 1_000_000_000)) as nat);
}

/// `l % r` is `l`'s count modulo the length of `r` counted in nanoseconds (rounded down), and
/// zero when that length is zero, whenever that length fits.
pub proof fn law_nanoseconds_rem<Rep: TimeInt, R: Duration>(l: Nanoseconds<Rep>, r: R)
    requires
        is_simple_period(R::period_num(), R::period_den()),
        exact_count(r.spec_count().as_nat(), R::period_num(), R::period_den(), 1, 1_000_000_000) <= Rep::max_nat(),
    ensures
        l.rem_req(r),
        l.rem_spec(r).0.as_nat() == if exact_count(r.spec_count().as_nat(), R::period_num(), R::period_den(), 1, 1_000_000_000) > 0 {
            l.0.as_nat() % exact_count(r.spec_count().as_nat(), R::period_num(), R::period_den(), 1, 1_000_000_000)
        } else {
            0
        },
{
    let v = exact_count(r.spec_count().as_nat(), R::period_num(), R::period_den(), 1, 1_000_000_000);
    law_conversion_fails_only_when_too_large::<R, Nanoseconds<Rep>>(r);
    if v > 0 {
        lemma_mod_bound(l.0.as_nat() as int, v as int);
        Rep::lemma_from_nat(l.0.as_nat() % v);
    } else {
        Rep::lemma_from_nat(0);
    }
}

/// Converting a span to nanoseconds gives its whole nanoseconds, whenever they fit, and otherwise a
/// `ConversionFailure`.
pub proof fn law_nanoseconds_from_core<Rep: TimeInt>(c: CoreDuration)
    ensures
        <Nanoseconds<Rep> as TryFromSpec<CoreDuration>>::try_from_spec(c) is Ok <==> c.total_nanos() / 1
            <= Rep::max_nat(),
        <Nanoseconds<Rep> as TryFromSpec<CoreDuration>>::try_from_spec(c) matches Ok(u) ==> u.0.as_nat()
            == c.total_nanos() / 1,
        <Nanoseconds<Rep> as TryFromSpec<CoreDuration>>::try_from_spec(c) matches Err(e) ==> e
            == ConversionError::ConversionFailure,
{
    if c.total_nanos() / 1 <= Rep::max_nat() {
        Rep::lemma_from_nat(c.total_nanos() / 1);
    }
}

/// Converting nanoseconds to a span keeps their length: it always succeeds.
pub proof fn law_core_from_nanoseconds<Rep: TimeInt>(d: Nanoseconds<Rep>)
    ensures
        <CoreDuration as TryFromSpec<Nanoseconds<Rep>>>::try_from_spec(d) matches Ok(s) && s.total_nanos()
            == d.0.as_nat() * 1,
{
    d.0.lemma_bounds();
    Rep::lemma_width();
    lemma_whole_seconds_fit(d.0.as_nat(), 1);
    CoreDuration::lemma_from_total_nanos(d.0.as_nat() * 1);
}

} // verus!
