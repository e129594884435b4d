use core::cmp::Ordering;
use core::convert::{TryFrom, TryInto};

use embedded_time::{
    ConversionError, CoreDuration, Duration, DurationOps, Hours, Microseconds, Milliseconds,
    Minutes, Nanoseconds, Period, Seconds, TryConvertFrom, TryConvertInto,
};

#[test]
fn check_for_overflows() {
    let mut time = 1_u64;
    time *= 60;
    assert!(Minutes(time).eq_duration(&Hours(1_u32)));
    time *= 60;
    assert!(Seconds(time).eq_duration(&Hours(1_u32)));
    time *= 1000;
    assert!(Milliseconds(time).eq_duration(&Hours(1_u32)));
    time *= 1000;
    assert!(Microseconds(time).eq_duration(&Hours(1_u32)));
    time *= 1000;
    assert!(Nanoseconds(time).eq_duration(&Hours(1_u32)));
}

#[test]
fn remainder() {
    assert_eq!(Minutes(62_u32) % Hours(1_u32), Minutes(2_u32));
    assert_eq!(Minutes(62_u32) % Milliseconds(1_u32), Minutes(0_u32));
    assert_eq!(Minutes(62_u32) % Minutes(60_u32), Minutes(2_u32));
}

#[test]
fn convert_from_core_duration() {
    let core_duration = CoreDuration::from_nanos(5_025_678_901_234);
    assert_eq!(
        core_duration.try_into(),
        Ok(Nanoseconds::<u64>(5_025_678_901_234))
    );
    assert_eq!(
        core_duration.try_into(),
        Ok(Microseconds::<u64>(5_025_678_901))
    );
    assert_eq!(core_duration.try_into(), Ok(Milliseconds::<u32>(5_025_678)));
    assert_eq!(core_duration.try_into(), Ok(Seconds::<u32>(5_025)));
    assert_eq!(core_duration.try_into(), Ok(Minutes::<u32>(83)));
    assert_eq!(core_duration.try_into(), Ok(Hours::<u32>(1)));
}

#[test]
fn convert_to_core_duration() {
    assert_eq!(
        Nanoseconds(123_u32).try_into(),
        Ok(CoreDuration::from_nanos(123))
    );
    assert_eq!(
        Microseconds(123_u32).try_into(),
        Ok(CoreDuration::from_micros(123))
    );
    assert_eq!(
        Milliseconds(123_u32).try_into(),
        Ok(CoreDuration::from_millis(123))
    );
    assert_eq!(
        Seconds(123_u32).try_into(),
        Ok(CoreDuration::from_secs(123))
    );
    assert_eq!(
        Minutes(123_u32).try_into(),
        Ok(CoreDuration::from_secs(123 * 60))
    );
    assert_eq!(
        Hours(123_u32).try_into(),
        Ok(CoreDuration::from_secs(123 * 3600))
    );
}

#[test]
fn construct_and_count() {
    assert_eq!(<Milliseconds<u32> as Duration>::new(23), Milliseconds(23_u32));
    assert_eq!(Milliseconds(23_u32).count(), 23_u32);
    assert_eq!(Seconds(123_u32).count(), 123_u32);
}

#[test]
fn min_and_max_values() {
    assert_eq!(u32::MIN, Seconds::<u32>::min_value());
    assert_eq!(u32::MAX, Seconds::<u32>::max_value());
    assert_eq!(u64::MIN, Hours::<u64>::min_value());
    assert_eq!(u64::MAX, Hours::<u64>::max_value());
}

#[test]
fn hms_components() {
    let duration = Microseconds(38_238_479_u32);
    let hours = Hours::<u32>::try_convert_from(duration).unwrap();
    let minutes = Minutes::<u32>::try_convert_from(duration).unwrap().remainder(Hours(1_u32));
    let seconds = Seconds::<u32>::try_convert_from(duration).unwrap().remainder(Minutes(1_u32));
    let milliseconds =
        Milliseconds::<u32>::try_convert_from(duration).unwrap().remainder(Seconds(1_u32));
    assert_eq!(hours, Hours(0_u32));
    assert_eq!(minutes, Minutes(0_u32));
    assert_eq!(seconds, Seconds(38_u32));
    assert_eq!(milliseconds, Milliseconds(238_u32));
}

#[test]
fn to_core_duration_parts() {
    let core_duration = CoreDuration::try_from(Milliseconds(2_569_u32)).unwrap();
    assert_eq!(core_duration.as_secs(), 2);
    assert_eq!(core_duration.subsec_nanos(), 569_000_000);
    let core_duration: CoreDuration = Milliseconds(2_569_u32).try_into().unwrap();
    assert_eq!(core_duration.as_secs(), 2);
    assert_eq!(core_duration.subsec_nanos(), 569_000_000);
}

#[test]
fn from_core_duration_rounds_down() {
    let core_duration = CoreDuration::new(5, 730_023_852);
    assert_eq!(
        Milliseconds::<u32>::try_from(core_duration),
        Ok(Milliseconds(5_730_u32))
    );
    let duration: Result<Milliseconds<u32>, _> = CoreDuration::new(5, 730_023_852).try_into();
    assert_eq!(duration, Ok(Milliseconds(5_730_u32)));
}

#[test]
fn from_core_duration_that_does_not_fit() {
    assert_eq!(
        Milliseconds::<u32>::try_from(CoreDuration::from_millis((u32::MAX as u64) + 1)),
        Err(ConversionError::ConversionFailure)
    );
    let duration: Result<Milliseconds<u32>, _> =
        CoreDuration::from_millis((u32::MAX as u64) + 1).try_into();
    assert_eq!(duration, Err(ConversionError::ConversionFailure));
    let duration: Result<Hours<u32>, _> = CoreDuration::from_secs(u64::MAX).try_into();
    assert_eq!(duration, Err(ConversionError::ConversionFailure));
}

#[test]
fn add_and_sub_operators() {
    assert_eq!((Milliseconds(2_001_u32) - Seconds(1_u32)), Milliseconds(1_001_u32));
    assert_eq!((Milliseconds(1_u32) + Seconds(1_u32)), Milliseconds(1_001_u32));
    assert_eq!(Minutes(62_u32).remainder(Hours(1_u32)), Minutes(2_u32));
}

#[test]
fn add_and_sub() {
    assert_eq!(Milliseconds(2_001_u32).minus(Seconds(1_u32)), Milliseconds(1_001_u32));
    assert_eq!(Milliseconds(1_u32).plus(Seconds(1_u32)), Milliseconds(1_001_u32));
    assert_eq!(Seconds(5_u32).plus(Seconds(7_u64)), Seconds(12_u32));
    assert_eq!(Minutes(2_u64).minus(Seconds(60_u32)), Minutes(1_u64));
}

#[test]
fn plus_then_minus_gives_back() {
    let start = Milliseconds(1_234_u32);
    let sum = start.plus(Seconds(3_u32));
    assert_eq!(sum, Milliseconds(4_234_u32));
    assert_eq!(sum.minus(Seconds(3_u32)), start);
}

#[test]
fn remainder_is_smaller_than_divisor() {
    assert_eq!(Seconds(3_725_u32).remainder(Minutes(1_u32)), Seconds(5_u32));
    assert_eq!(Seconds(7_u32).remainder(Minutes(0_u32)), Seconds(0_u32));
    assert_eq!(Seconds(7_u32).remainder(Milliseconds(10_u32)), Seconds(0_u32));
}

#[test]
fn equality() {
    assert!(Seconds(123_u32).eq_duration(&Seconds(123_u32)));
    assert!(Seconds(123_u32).eq_duration(&Milliseconds(123_000_u32)));

    assert!(!Seconds(123_u32).eq_duration(&Milliseconds(123_001_u32)));
    assert!(!Milliseconds(123_001_u32).eq_duration(&Seconds(123_u32)));
    assert!(!Milliseconds(123_001_u64).eq_duration(&Seconds(123_u64)));
    assert!(!Seconds(123_u64).eq_duration(&Milliseconds(123_001_u64)));
    assert!(!Seconds(123_u64).eq_duration(&Milliseconds(123_001_u32)));
}

#[test]
fn comparisons() {
    assert_eq!(Seconds(2_u32).partial_cmp_duration(&Seconds(3_u32)), Some(Ordering::Less));
    assert_eq!(
        Seconds(2_u32).partial_cmp_duration(&Milliseconds(2_001_u32)),
        Some(Ordering::Less)
    );
    assert_eq!(
        Seconds(2_u32).partial_cmp_duration(&Milliseconds(2_000_u32)),
        Some(Ordering::Equal)
    );
    assert_eq!(
        Seconds(2_u32).partial_cmp_duration(&Milliseconds(1_999_u32)),
        Some(Ordering::Greater)
    );
    assert_eq!(
        Seconds(2_u32).partial_cmp_duration(&Milliseconds(2_001_u64)),
        Some(Ordering::Less)
    );
    assert_eq!(
        Seconds(2_u64).partial_cmp_duration(&Milliseconds(2_001_u32)),
        Some(Ordering::Less)
    );
}

#[test]
fn comparisons_are_symmetric() {
    assert_eq!(
        Milliseconds(2_001_u32).partial_cmp_duration(&Seconds(2_u32)),
        Some(Ordering::Greater)
    );
    assert!(Milliseconds(2_000_u32).eq_duration(&Seconds(2_u32)));
    assert!(Seconds(9_u64).eq_duration(&Seconds(9_u32)));
    assert!(Seconds(9_u32).eq_duration(&Seconds(9_u64)));
}

#[test]
fn from_ticks_examples() {
    assert_eq!(
        Microseconds::<u32>::from_ticks(5_u64, Period::new(1, 1_000)),
        Ok(Microseconds(5_000_u32))
    );
    assert_eq!(
        Milliseconds::<u32>::from_ticks((u32::MAX as u64) + 1, Period::new(1, 1_000_000)),
        Ok(Milliseconds((((u32::MAX as u64) + 1) / 1_000) as u32))
    );
}

#[test]
fn from_ticks_errors() {
    assert_eq!(
        Milliseconds::<u32>::from_ticks(u32::MAX, Period::new(1, 1)),
        Err(ConversionError::Overflow)
    );
    assert_eq!(
        Seconds::<u32>::from_ticks(u32::MAX as u64 + 1, Period::new(1, 1)),
        Err(ConversionError::ConversionFailure)
    );
    assert_eq!(
        Seconds::<u32>::from_ticks(7_u32, Period::new(0, 1)),
        Ok(Seconds(0_u32))
    );
    assert_eq!(
        Hours::<u32>::from_ticks(7_u32, Period::new(0, 1)),
        Ok(Hours(0_u32))
    );
}

#[test]
fn into_ticks_examples() {
    assert_eq!(Microseconds(5_000_u32).into_ticks::<u32>(Period::new(1, 1_000)), Ok(5_u32));
    assert_eq!(Microseconds(5_000_u32).into_ticks::<u32>(Period::new(1, 200)), Ok(1_u32));
    assert_eq!(
        Microseconds::<u32>(u32::MAX).into_ticks::<u64>(Period::new(1, 2_000_000)),
        Ok((u32::MAX as u64) * 2)
    );
    assert_eq!(Hours(2_u32).into_ticks::<u64>(Period::new(60, 1)), Ok(120_u64));
}

#[test]
fn into_ticks_errors() {
    assert_eq!(
        Seconds(u32::MAX).into_ticks::<u32>(Period::new(1, 1_000)),
        Err(ConversionError::Overflow)
    );
    assert_eq!(
        Seconds(u32::MAX as u64 + 1).into_ticks::<u32>(Period::new(1, 1)),
        Err(ConversionError::ConversionFailure)
    );
    assert_eq!(
        Seconds(5_u32).into_ticks::<u32>(Period::new(0, 1)),
        Err(ConversionError::DivByZero)
    );
    assert_eq!(
        Hours(5_u32).into_ticks::<u32>(Period::new(0, 1)),
        Err(ConversionError::DivByZero)
    );
}

#[test]
fn try_convert_from_examples() {
    assert_eq!(Seconds::<u32>::try_convert_from(Milliseconds(23_000_u64)), Ok(Seconds(23_u32)));
    assert_eq!(Seconds::<u64>::try_convert_from(Milliseconds(23_000_u32)), Ok(Seconds(23_u64)));
    assert_eq!(Seconds::<u32>::try_convert_from(Milliseconds(230_u32)), Ok(Seconds(0)));
    assert_eq!(
        Milliseconds::<u32>::try_convert_from(Seconds(u32::MAX)),
        Err(ConversionError::Overflow)
    );
    assert_eq!(
        Seconds::<u32>::try_convert_from(Seconds(u32::MAX as u64 + 1)),
        Err(ConversionError::ConversionFailure)
    );
    assert_eq!(
        Hours::<u32>::try_convert_from(Microseconds(3_600_000_000_u64)),
        Ok(Hours(1_u32))
    );
    assert_eq!(
        Microseconds::<u64>::try_convert_from(Hours(1_u32)),
        Ok(Microseconds(3_600_000_000_u64))
    );
}

#[test]
fn try_convert_into_examples() {
    assert_eq!(Seconds(23_u64).try_convert_into(), Ok(Seconds(23_u32)));
    assert_eq!(Seconds(23_u32).try_convert_into(), Ok(Seconds(23_u64)));
    assert_eq!(Milliseconds(23_000_u64).try_convert_into(), Ok(Seconds(23_u32)));
    assert_eq!(
        <Seconds<u32> as TryConvertInto<Milliseconds<u32>>>::try_convert_into(Seconds(u32::MAX)),
        Err(ConversionError::Overflow)
    );
    assert_eq!(
        <Seconds<u64> as TryConvertInto<Seconds<u32>>>::try_convert_into(Seconds(
            u32::MAX as u64 + 1
        )),
        Err(ConversionError::ConversionFailure)
    );
    assert_eq!(Microseconds(3_600_000_000_u64).try_convert_into(), Ok(Hours(1_u32)));
    assert_eq!(Hours(1_u32).try_convert_into(), Ok(Microseconds(3_600_000_000_u64)));
}

#[test]
fn conversion_rounds_down() {
    assert_eq!(Minutes::<u32>::try_convert_from(Seconds(119_u32)), Ok(Minutes(1_u32)));
    assert_eq!(Hours::<u64>::try_convert_from(Nanoseconds(7_199_999_999_999_u64)), Ok(Hours(1_u64)));
    assert_eq!(Milliseconds::<u32>::try_convert_from(Nanoseconds(1_999_999_u32)), Ok(Milliseconds(1_u32)));
}

#[test]
fn same_unit_conversion_keeps_count() {
    assert_eq!(Milliseconds::<u64>::try_convert_from(Milliseconds(77_u32)), Ok(Milliseconds(77_u64)));
    assert_eq!(Milliseconds::<u32>::try_convert_from(Milliseconds(77_u64)), Ok(Milliseconds(77_u32)));
    assert_eq!(
        Milliseconds::<u32>::try_convert_from(Milliseconds(u64::MAX)),
        Err(ConversionError::ConversionFailure)
    );
}

#[test]
fn round_trip_through_finer_unit() {
    let hours = Hours(3_u32);
    let micros = Microseconds::<u64>::try_convert_from(hours).unwrap();
    assert_eq!(micros, Microseconds(10_800_000_000_u64));
    assert_eq!(Hours::<u32>::try_convert_from(micros), Ok(hours));
}

#[test]
fn conversion_fails_only_when_too_large() {
    assert_eq!(
        Milliseconds::<u32>::try_convert_from(Seconds(4_294_967_u32)),
        Ok(Milliseconds(4_294_967_000_u32))
    );
    assert_eq!(
        Milliseconds::<u32>::try_convert_from(Seconds(4_294_968_u32)),
        Err(ConversionError::Overflow)
    );
    assert_eq!(
        Nanoseconds::<u32>::try_convert_from(Seconds(5_u64)),
        Err(ConversionError::ConversionFailure)
    );
    assert_eq!(
        Nanoseconds::<u64>::try_convert_from(Seconds(5_u32)),
        Ok(Nanoseconds(5_000_000_000_u64))
    );
}

#[test]
fn longer_units_convert_whenever_the_result_fits() {
    assert_eq!(
        Minutes::<u32>::try_convert_from(Hours(2_000_000_u32)),
        Ok(Minutes(120_000_000_u32))
    );
    assert_eq!(
        Minutes::<u32>::from_ticks(2_000_000_u32, Period::new(3_600, 1)),
        Ok(Minutes(120_000_000_u32))
    );
    assert_eq!(
        Hours(2_000_000_u32).into_ticks::<u32>(Period::new(60, 1)),
        Ok(120_000_000_u32)
    );
    assert_eq!(Hours::<u32>::try_convert_from(Hours(2_000_000_u32)), Ok(Hours(2_000_000_u32)));
    assert_eq!(Hours::<u32>::try_convert_from(Hours(u32::MAX)), Ok(Hours(u32::MAX)));
    assert_eq!(Hours::<u64>::try_convert_from(Nanoseconds(5_u32)), Ok(Hours(0_u64)));
    assert_eq!(
        Minutes::<u32>::try_convert_from(Hours(71_582_789_u32)),
        Err(ConversionError::Overflow)
    );
    assert_eq!(
        Minutes::<u32>::try_convert_from(Hours(71_582_788_u64)),
        Ok(Minutes(4_294_967_280_u32))
    );
    assert_eq!(
        Minutes::<u32>::try_convert_from(Hours(71_582_789_u64)),
        Err(ConversionError::ConversionFailure)
    );
}

#[test]
fn conversions_are_monotone() {
    assert_eq!(Seconds::<u32>::try_convert_from(Milliseconds(1_999_u32)), Ok(Seconds(1_u32)));
    assert_eq!(Seconds::<u32>::try_convert_from(Milliseconds(2_000_u32)), Ok(Seconds(2_u32)));
    assert_eq!(Seconds(4_u32).into_ticks::<u32>(Period::new(1, 3)), Ok(12_u32));
    assert_eq!(Seconds(5_u32).into_ticks::<u32>(Period::new(1, 3)), Ok(15_u32));
}

#[test]
fn from_ticks_undoes_into_ticks() {
    let ticks = Milliseconds(1_234_u32).into_ticks::<u64>(Period::new(1, 32_000)).unwrap();
    assert_eq!(ticks, 39_488_u64);
    assert_eq!(
        Milliseconds::<u32>::from_ticks(ticks, Period::new(1, 32_000)),
        Ok(Milliseconds(1_234_u32))
    );
}

#[test]
fn long_tick_periods_round_twice() {
    assert_eq!(
        Milliseconds::<u32>::from_ticks(1_u32, Period::new(3, 2)),
        Ok(Milliseconds(1_000_u32))
    );
    assert_eq!(
        Milliseconds::<u32>::from_ticks(3_u32, Period::new(3, 2)),
        Ok(Milliseconds(4_000_u32))
    );
    assert_eq!(Seconds(5_u32).into_ticks::<u32>(Period::new(3, 2)), Ok(3_u32));
    assert_eq!(Minutes(1_u32).into_ticks::<u32>(Period::new(7, 1)), Ok(8_u32));
}

#[test]
fn zero_tick_period_reports_overflow_before_division() {
    assert_eq!(
        Hours(u32::MAX).into_ticks::<u32>(Period::new(0, 1)),
        Err(ConversionError::Overflow)
    );
    assert_eq!(
        Hours(5_u32).into_ticks::<u32>(Period::new(0, 1)),
        Err(ConversionError::DivByZero)
    );
    assert_eq!(
        Seconds(u32::MAX).into_ticks::<u32>(Period::new(0, 1)),
        Err(ConversionError::DivByZero)
    );
}
