//! Properties of the conversions that hold across calls: how they round, failure
//! only when the result does not fit, conversions that change only the integer type,
//! round trips, monotonicity, and the arithmetic and comparison operations.

use vstd::prelude::*;

use vstd::arithmetic::div_mod::{lemma_div_by_multiple, lemma_div_is_ordered, lemma_fundamental_div_mod};

use crate::arith::{compared_counts, comparable, ordering_of};
use crate::duration::{
    Duration,
    converted_count,
    exact_count,
    from_ticks_count,
    from_ticks_rounded,
    into_ticks_count,
    into_ticks_rounded,
    into_ticks_rounds_twice,
    twice_rounded,
};
use crate::error::ConversionError;
use crate::time_int::TimeInt;

verus! {

proof fn lemma_positive_product(a: nat, b: nat)
    requires
        a > 0,
        b > 0,
    ensures
        a * b > 0,
{
    assert(a * b > 0) by (nonlinear_arith)
        requires
            a > 0,
            b > 0,
    ;
}

proof fn lemma_scaled_ordering(p: nat, q: nat, c: nat)
    requires
        c > 0,
    ensures
        ordering_of(p, q) == ordering_of(p * c, q * c),
{
    assert(p < q <==> p * c < q * c) by (nonlinear_arith)
        requires
            c > 0,
    ;
    assert(p == q <==> p * c == q * c) by (nonlinear_arith)
        requires
            c > 0,
    ;
}

/// Counting at the same rate changes nothing.
proof fn lemma_exact_count_same_rate(t: nat, n1: nat, d1: nat, n2: nat, d2: nat)
    requires
        d1 > 0,
        n2 > 0,
        n1 * d2 == n2 * d1,
    ensures
        exact_count(t, n1, d1, n2, d2) == t,
{
    assert(t * n1 * d2 == t * (d1 * n2)) by (nonlinear_arith)
        requires
            n1 * d2 == n2 * d1,
    ;
    lemma_positive_product(d1, n2);
    lemma_div_by_multiple(t as int, (d1 * n2) as int);
}

/// Counting in a unit that divides the source unit is exact.
proof fn lemma_exact_count_multiple(t: nat, n1: nat, d1: nat, n2: nat, d2: nat)
    requires
        d1 > 0,
        n2 > 0,
        (n1 * d2) % (d1 * n2) == 0,
    ensures
        exact_count(t, n1, d1, n2, d2) * (d1 * n2) == t * n1 * d2,
{
    let a = n1 * d2;
    let b = d1 * n2;
    lemma_positive_product(d1, n2);
    lemma_fundamental_div_mod(a as int, b as int);
    let k = a / b;
    assert(a == k * b) by (nonlinear_arith)
        requires
            a == b * (a / b) + a % b,
            a % b == 0,
            k == a / b,
    ;
    assert(t * n1 * d2 == (t * k) * b) by (nonlinear_arith)
        requires
            a == n1 * d2,
            a == k * b,
    ;
    lemma_div_by_multiple((t * k) as int, b as int);
}

/// Counting in a finer unit and back again gives the original count.
proof fn lemma_exact_round_trip(t: nat, n1: nat, d1: nat, n2: nat, d2: nat)
    requires
        n1 > 0,
        d1 > 0,
        n2 > 0,
        d2 > 0,
        (n1 * d2) % (d1 * n2) == 0,
    ensures
        exact_count(exact_count(t, n1, d1, n2, d2), n2, d2, n1, d1) == t,
{
    let v = exact_count(t, n1, d1, n2, d2);
    lemma_exact_count_multiple(t, n1, d1, n2, d2);
    assert(v * n2 * d1 == t * (d2 * n1)) by (nonlinear_arith)
        requires
            v * (d1 * n2) == t * n1 * d2,
    ;
    lemma_positive_product(d2, n1);
    lemma_div_by_multiple(t as int, (d2 * n1) as int);
}

proof fn lemma_exact_count_monotone(t1: nat, t2: nat, n1: nat, d1: nat, n2: nat, d2: nat)
    requires
        t1 <= t2,
        d1 > 0,
        n2 > 0,
    ensures
        exact_count(t1, n1, d1, n2, d2) <= exact_count(t2, n1, d1, n2, d2),
{
    assert(t1 * n1 * d2 <= t2 * n1 * d2) by (nonlinear_arith)
        requires
            t1 <= t2,
    ;
    lemma_positive_product(d1, n2);
    lemma_div_is_ordered((t1 * n1 * d2) as int, (t2 * n1 * d2) as int, (d1 * n2) as int);
}

/// A period of a positive whole number of seconds (`n / 1`) or of one over a positive
/// whole number of seconds (`1 / d`), as every duration unit of this crate has.
pub open spec fn is_simple_period(n: nat, d: nat) -> bool {
    n > 0 && d > 0 && (n == 1 || d == 1)
}

proof fn lemma_twice_rounded_monotone(t1: nat, t2: nat, m1: nat, d1: nat, m2: nat, d2: nat)
    requires
        t1 <= t2,
        d1 > 0,
        d2 > 0,
    ensures
        twice_rounded(t1, m1, d1, m2, d2) <= twice_rounded(t2, m1, d1, m2, d2),
{
    assert(t1 * m1 <= t2 * m1) by (nonlinear_arith)
        requires
            t1 <= t2,
    ;
    lemma_div_is_ordered((t1 * m1) as int, (t2 * m1) as int, d1 as int);
    let y1 = t1 * m1 / d1;
    let y2 = t2 * m1 / d1;
    assert(y1 * m2 <= y2 * m2) by (nonlinear_arith)
        requires
            y1 <= y2,
    ;
    lemma_div_is_ordered((y1 * m2) as int, (y2 * m2) as int, d2 as int);
}

/// `(t / a) / b == (t * 1 * 1) / (b * a)`.
proof fn lemma_nested_floor(t: nat, a: nat, b: nat)
    requires
        a > 0,
        b > 0,
    ensures
        ((t * 1 / a) * 1) / b == (t * 1 * 1) / (b * a),
{
    vstd::arithmetic::div_mod::lemma_div_denominator(t as int, a as int, b as int);
    assert(a * b == b * a) by (nonlinear_arith);
}

/// A conversion from ticks fails only when the count it should give does not fit: it
/// succeeds exactly when the count, rounded as `from_ticks_rounded` says, fits in `D`, and
/// then gives that count; otherwise the error is `ConversionFailure` (the count fits in
/// the wider `R`) or `Overflow`.
pub proof fn law_from_ticks_fails_only_when_too_large<R: TimeInt, D: TimeInt>(
    ticks: nat,
    p_num: nat,
    p_den: nat,
    q_num: nat,
    q_den: nat,
)
    requires
        p_den > 0,
        q_num > 0,
    ensures
        from_ticks_count::<R, D>(ticks, p_num, p_den, q_num, q_den) is Ok <==> from_ticks_rounded::<
            R,
            D,
        >(ticks, p_num, p_den, q_num, q_den) <= D::max_nat(),
        from_ticks_count::<R, D>(ticks, p_num, p_den, q_num, q_den) matches Ok(v) ==> v
            == from_ticks_rounded::<R, D>(ticks, p_num, p_den, q_num, q_den),
        from_ticks_count::<R, D>(ticks, p_num, p_den, q_num, q_den) matches Err(e) ==> e
            == ConversionError::ConversionFailure || e == ConversionError::Overflow,
{
    lemma_positive_product(p_den, q_num);
}

/// A conversion into ticks fails only when the count it should give does not fit, or the
/// tick period is zero: for a nonzero period it succeeds exactly when the count, rounded
/// as `into_ticks_rounded` says, fits in `R`, and then gives that count.
pub proof fn law_into_ticks_fails_only_when_too_large<S: TimeInt, R: TimeInt>(
    count: nat,
    s_num: nat,
    s_den: nat,
    p_num: nat,
    p_den: nat,
)
    requires
        s_den > 0,
        p_num > 0,
    ensures
        into_ticks_count::<S, R>(count, s_num, s_den, p_num, p_den) is Ok <==> into_ticks_rounded::<
            S,
            R,
        >(count, s_num, s_den, p_num, p_den) <= R::max_nat(),
        into_ticks_count::<S, R>(count, s_num, s_den, p_num, p_den) matches Ok(v) ==> v
            == into_ticks_rounded::<S, R>(count, s_num, s_den, p_num, p_den),
        into_ticks_count::<S, R>(count, s_num, s_den, p_num, p_den) matches Err(e) ==> e
            == ConversionError::ConversionFailure || e == ConversionError::Overflow,
{
    lemma_positive_product(s_den, p_num);
}

/// Between periods that are whole numbers of seconds or one over a whole number, the
/// rounding of a conversion from ticks loses nothing: the count is `ticks * p / q`
/// rounded down once.
pub proof fn law_from_ticks_rounds_once_for_simple_periods<R: TimeInt, D: TimeInt>(
    ticks: nat,
    p_num: nat,
    p_den: nat,
    q_num: nat,
    q_den: nat,
)
    requires
        is_simple_period(p_num, p_den),
        is_simple_period(q_num, q_den),
    ensures
        from_ticks_rounded::<R, D>(ticks, p_num, p_den, q_num, q_den) == exact_count(
            ticks,
            p_num,
            p_den,
            q_num,
            q_den,
        ),
{
    if p_num > p_den {
        assert(p_den == 1);
        assert(ticks * p_num / 1 == ticks * p_num);
        assert(1 * q_num == q_num);
    } else if !(D::width() > R::width()) && q_num > q_den {
        assert(q_den == 1 && p_num == 1);
        lemma_nested_floor(ticks, q_num, p_den);
    }
}

/// Between periods that are whole numbers of seconds or one over a whole number, the
/// rounding of a conversion into ticks loses nothing: the count is `count * s / p`
/// rounded down once.
pub proof fn law_into_ticks_rounds_once_for_simple_periods<S: TimeInt, R: TimeInt>(
    count: nat,
    s_num: nat,
    s_den: nat,
    p_num: nat,
    p_den: nat,
)
    requires
        is_simple_period(s_num, s_den),
        is_simple_period(p_num, p_den),
    ensures
        into_ticks_rounded::<S, R>(count, s_num, s_den, p_num, p_den) == exact_count(
            count,
            s_num,
            s_den,
            p_num,
            p_den,
        ),
{
    if into_ticks_rounds_twice::<S, R>(s_num, s_den, p_num, p_den) {
        if s_den == 1 {
            assert(count * s_num / 1 == count * s_num);
            assert(1 * p_num == p_num);
        } else {
            assert(s_num == 1 && p_den == 1);
            lemma_nested_floor(count, s_den, p_num);
        }
    }
}

/// Converting a duration to another unit or integer type fails only when the count it
/// should give does not fit in the destination: between the units of this crate it
/// succeeds exactly when `count * (source unit / destination unit)`, rounded down, fits,
/// and then gives that count.
pub proof fn law_conversion_fails_only_when_too_large<S: Duration, D: Duration>(source: S)
    requires
        is_simple_period(S::period_num(), S::period_den()),
        is_simple_period(D::period_num(), D::period_den()),
    ensures
        converted_count::<S, D>(source) is Ok <==> exact_count(
            source.spec_count().as_nat(),
            S::period_num(),
            S::period_den(),
            D::period_num(),
            D::period_den(),
        ) <= D::Rep::max_nat(),
        converted_count::<S, D>(source) matches Ok(v) ==> v == exact_count(
            source.spec_count().as_nat(),
            S::period_num(),
            S::period_den(),
            D::period_num(),
            D::period_den(),
        ),
        converted_count::<S, D>(source) matches Err(e) ==> e == ConversionError::ConversionFailure
            || e == ConversionError::Overflow,
{
    let t = source.spec_count().as_nat();
    law_from_ticks_fails_only_when_too_large::<S::Rep, D::Rep>(
        t,
        S::period_num(),
        S::period_den(),
        D::period_num(),
        D::period_den(),
    );
    law_from_ticks_rounds_once_for_simple_periods::<S::Rep, D::Rep>(
        t,
        S::period_num(),
        S::period_den(),
        D::period_num(),
        D::period_den(),
    );
}

/// Converting a duration to its own type always succeeds and keeps it.
pub proof fn law_conversion_to_own_type_keeps_count<D: Duration>(d: D)
    requires
        is_simple_period(D::period_num(), D::period_den()),
    ensures
        converted_count::<D, D>(d) == Ok::<nat, ConversionError>(d.spec_count().as_nat()),
{
    d.spec_count().lemma_bounds();
    lemma_exact_count_same_rate(
        d.spec_count().as_nat(),
        D::period_num(),
        D::period_den(),
        D::period_num(),
        D::period_den(),
    );
    law_conversion_fails_only_when_too_large::<D, D>(d);
}

/// Changing only the integer type of a duration succeeds exactly when the count fits in
/// the destination type, and keeps the count; otherwise it is a `ConversionFailure`.
pub proof fn law_same_unit_conversion_keeps_count<S: Duration, D: Duration>(source: S)
    requires
        S::period_num() == D::period_num(),
        S::period_den() == D::period_den(),
        is_simple_period(S::period_num(), S::period_den()),
    ensures
        converted_count::<S, D>(source) == if source.spec_count().as_nat() <= D::Rep::max_nat() {
            Ok::<nat, ConversionError>(source.spec_count().as_nat())
        } else {
            Err(ConversionError::ConversionFailure)
        },
{
    let t = source.spec_count().as_nat();
    source.spec_count().lemma_bounds();
    S::Rep::lemma_width();
    D::Rep::lemma_width();
    lemma_exact_count_same_rate(t, S::period_num(), S::period_den(), D::period_num(), D::period_den());
    law_conversion_fails_only_when_too_large::<S, D>(source);
    law_from_ticks_fails_only_when_too_large::<S::Rep, D::Rep>(
        t,
        S::period_num(),
        S::period_den(),
        D::period_num(),
        D::period_den(),
    );
}

/// A round trip through a finer unit gives the original back: when the unit of `S` is a
/// whole multiple of the unit of `D`, and `source` converts to `finer`, then `finer`
/// converts back to `source`'s count (always successfully).
pub proof fn law_round_trip_through_finer_unit<S: Duration, D: Duration>(source: S, finer: D)
    requires
        is_simple_period(S::period_num(), S::period_den()),
        is_simple_period(D::period_num(), D::period_den()),
        (S::period_num() * D::period_den()) % (S::period_den() * D::period_num()) == 0,
        converted_count::<S, D>(source) == Ok::<nat, ConversionError>(
            finer.spec_count().as_nat(),
        ),
    ensures
        converted_count::<D, S>(finer) == Ok::<nat, ConversionError>(
            source.spec_count().as_nat(),
        ),
{
    let t = source.spec_count().as_nat();
    let (sn, sd, dn, dd) = (S::period_num(), S::period_den(), D::period_num(), D::period_den());
    law_conversion_fails_only_when_too_large::<S, D>(source);
    law_conversion_fails_only_when_too_large::<D, S>(finer);
    lemma_exact_round_trip(t, sn, sd, dn, dd);
    source.spec_count().lemma_bounds();
}

/// Converting a duration into ticks of a finer period, and those ticks back into the
/// duration's unit, gives the duration back: when the unit is a whole multiple of the
/// tick period and `into_ticks` gives `ticks`, `from_ticks` turns `ticks` into the
/// original count (always successfully).
pub proof fn law_from_ticks_undoes_into_ticks<D: Duration, R: TimeInt>(
    d: D,
    p_num: nat,
    p_den: nat,
    ticks: nat,
)
    requires
        is_simple_period(D::period_num(), D::period_den()),
        is_simple_period(p_num, p_den),
        (D::period_num() * p_den) % (D::period_den() * p_num) == 0,
        into_ticks_count::<D::Rep, R>(
            d.spec_count().as_nat(),
            D::period_num(),
            D::period_den(),
            p_num,
            p_den,
        ) == Ok::<nat, ConversionError>(ticks),
    ensures
        from_ticks_count::<R, D::Rep>(ticks, p_num, p_den, D::period_num(), D::period_den())
            == Ok::<nat, ConversionError>(d.spec_count().as_nat()),
{
    let c = d.spec_count().as_nat();
    let (dn, dd) = (D::period_num(), D::period_den());
    law_into_ticks_fails_only_when_too_large::<D::Rep, R>(c, dn, dd, p_num, p_den);
    law_into_ticks_rounds_once_for_simple_periods::<D::Rep, R>(c, dn, dd, p_num, p_den);
    law_from_ticks_fails_only_when_too_large::<R, D::Rep>(ticks, p_num, p_den, dn, dd);
    law_from_ticks_rounds_once_for_simple_periods::<R, D::Rep>(ticks, p_num, p_den, dn, dd);
    lemma_exact_round_trip(c, dn, dd, p_num, p_den);
    d.spec_count().lemma_bounds();
}

/// Conversion from ticks is monotone: fewer ticks never convert to a larger count, and
/// when a count of ticks converts successfully, every smaller count does too.
pub proof fn law_from_ticks_is_monotone<R: TimeInt, D: TimeInt>(
    fewer: nat,
    more: nat,
    p_num: nat,
    p_den: nat,
    q_num: nat,
    q_den: nat,
)
    requires
        fewer <= more,
        p_den > 0,
        q_num > 0,
    ensures
        from_ticks_count::<R, D>(more, p_num, p_den, q_num, q_den) matches Ok(w) ==> (
        from_ticks_count::<R, D>(fewer, p_num, p_den, q_num, q_den) matches Ok(v) && v <= w),
{
    law_from_ticks_fails_only_when_too_large::<R, D>(fewer, p_num, p_den, q_num, q_den);
    law_from_ticks_fails_only_when_too_large::<R, D>(more, p_num, p_den, q_num, q_den);
    if p_num > p_den {
        lemma_twice_rounded_monotone(fewer, more, p_num, p_den, q_den, q_num);
    } else if !(D::width() > R::width()) && q_num > q_den {
        lemma_twice_rounded_monotone(fewer, more, q_den, q_num, p_num, p_den);
    } else {
        lemma_exact_count_monotone(fewer, more, p_num, p_den, q_num, q_den);
    }
}

/// Conversion into ticks is monotone: a smaller count never converts to more ticks, and
/// when a count converts successfully, every smaller count does too.
pub proof fn law_into_ticks_is_monotone<S: TimeInt, R: TimeInt>(
    fewer: nat,
    more: nat,
    s_num: nat,
    s_den: nat,
    p_num: nat,
    p_den: nat,
)
    requires
        fewer <= more,
        s_den > 0,
        p_num > 0,
    ensures
        into_ticks_count::<S, R>(more, s_num, s_den, p_num, p_den) matches Ok(w) ==> (
        into_ticks_count::<S, R>(fewer, s_num, s_den, p_num, p_den) matches Ok(v) && v <= w),
{
    law_into_ticks_fails_only_when_too_large::<S, R>(fewer, s_num, s_den, p_num, p_den);
    law_into_ticks_fails_only_when_too_large::<S, R>(more, s_num, s_den, p_num, p_den);
    if into_ticks_rounds_twice::<S, R>(s_num, s_den, p_num, p_den) {
        lemma_twice_rounded_monotone(fewer, more, s_num, s_den, p_den, p_num);
    } else {
        lemma_exact_count_monotone(fewer, more, s_num, s_den, p_num, p_den);
    }
}

/// Comparisons are symmetric: comparing `b` with `a` compares the same two counts as
/// comparing `a` with `b`, in the other order. So `a == b` exactly when `b == a`, and
/// `b.partial_cmp(a)` is the reverse of `a.partial_cmp(b)`.
pub proof fn law_comparison_is_symmetric<A: Duration, B: Duration>(a: A, b: B)
    requires
        is_simple_period(A::period_num(), A::period_den()),
        is_simple_period(B::period_num(), B::period_den()),
        comparable(a, b),
        comparable(b, a),
    ensures
        compared_counts(b, a) == (compared_counts(a, b).1, compared_counts(a, b).0),
{
    let (an, ad, bn, bd) = (A::period_num(), A::period_den(), B::period_num(), B::period_den());
    if an * bd < bn * ad {
    } else if bn * ad < an * bd {
    } else {
        law_conversion_fails_only_when_too_large::<A, B>(a);
        law_conversion_fails_only_when_too_large::<B, A>(b);
        lemma_exact_count_same_rate(a.spec_count().as_nat(), an, ad, bn, bd);
        lemma_exact_count_same_rate(b.spec_count().as_nat(), bn, bd, an, ad);
    }
}

/// Comparisons compare lengths of time: when one unit is a whole multiple of the other,
/// `a` compares with `b` as `a.count * unit_a` compares with `b.count * unit_b`. So `==`
/// holds exactly when the two durations are equally long, as
/// `Seconds(123) == Milliseconds(123_000)`.
pub proof fn law_comparison_compares_lengths<A: Duration, B: Duration>(a: A, b: B)
    requires
        is_simple_period(A::period_num(), A::period_den()),
        is_simple_period(B::period_num(), B::period_den()),
        (A::period_num() * B::period_den()) % (A::period_den() * B::period_num()) == 0 || (
        B::period_num() * A::period_den()) % (B::period_den() * A::period_num()) == 0,
        comparable(a, b),
    ensures
        ordering_of(compared_counts(a, b).0, compared_counts(a, b).1) == ordering_of(
            a.spec_count().as_nat() * A::period_num() * B::period_den(),
            b.spec_count().as_nat() * B::period_num() * A::period_den(),
        ),
{
    let (an, ad, bn, bd) = (A::period_num(), A::period_den(), B::period_num(), B::period_den());
    let ta = a.spec_count().as_nat();
    let tb = b.spec_count().as_nat();
    let ca = an * bd;
    let cb = bn * ad;
    lemma_positive_product(an, bd);
    lemma_positive_product(bn, ad);
    assert(ad * bn == cb && bd * an == ca && ta * an * bd == ta * ca && tb * bn * ad == tb * cb)
        by (nonlinear_arith)
        requires
            ca == an * bd,
            cb == bn * ad,
    ;
    law_conversion_fails_only_when_too_large::<A, B>(a);
    law_conversion_fails_only_when_too_large::<B, A>(b);
    if ca < cb {
        if ca % cb == 0 {
            vstd::arithmetic::div_mod::lemma_small_mod(ca, cb);
        }
        assert(cb % ca == 0);
        lemma_exact_count_multiple(tb, bn, bd, an, ad);
        let v = exact_count(tb, bn, bd, an, ad);
        assert(compared_counts(a, b) == (ta, v));
        lemma_scaled_ordering(ta, v, ca);
    } else if cb < ca {
        if cb % ca == 0 {
            vstd::arithmetic::div_mod::lemma_small_mod(cb, ca);
        }
        assert(ca % cb == 0);
        lemma_exact_count_multiple(ta, an, ad, bn, bd);
        let v = exact_count(ta, an, ad, bn, bd);
        assert(compared_counts(a, b) == (v, tb));
        lemma_scaled_ordering(v, tb, cb);
    } else {
        lemma_exact_count_same_rate(ta, an, ad, bn, bd);
        assert(compared_counts(a, b) == (ta, tb));
        lemma_scaled_ordering(ta, tb, ca);
    }
}

/// An addition undone: adding `rhs` to `lhs` and then subtracting `rhs` from the sum
/// gives back `lhs`'s count, whenever the addition succeeds (the subtraction then does).
pub proof fn law_minus_undoes_plus<L: Duration, R: Duration>(lhs: L, rhs: R, sum: L)
    requires
        converted_count::<R, L>(rhs) matches Ok(v) && lhs.spec_count().as_nat() + v
            <= L::Rep::max_nat(),
        sum.spec_count().as_nat() == lhs.spec_count().as_nat() + converted_count::<R, L>(
            rhs,
        )->Ok_0,
    ensures
        converted_count::<R, L>(rhs) matches Ok(v) && v <= sum.spec_count().as_nat(),
        sum.spec_count().as_nat() - converted_count::<R, L>(rhs)->Ok_0
            == lhs.spec_count().as_nat(),
{
}

/// The remainder of a division by a duration that converts to a positive count is
/// smaller than that count.
pub proof fn law_remainder_is_smaller<L: Duration, R: Duration>(lhs: L, rhs: R, rem: L)
    requires
        converted_count::<R, L>(rhs) matches Ok(v) && v > 0,
        rem.spec_count().as_nat() == lhs.spec_count().as_nat() % converted_count::<R, L>(
            rhs,
        )->Ok_0,
    ensures
        rem.spec_count().as_nat() < converted_count::<R, L>(rhs)->Ok_0,
{
    let v = converted_count::<R, L>(rhs)->Ok_0;
    vstd::arithmetic::div_mod::lemma_mod_bound(lhs.spec_count().as_nat() as int, v as int);
}

} // verus!
