use embedded_time::timer::param::{Disarmed, OneShot};
use embedded_time::{Clock, Instant, Milliseconds, Period, Seconds, Timer};

struct MillisecondClock;

impl Clock for MillisecondClock {
    type Rep = u32;

    fn period() -> Period {
        Period::new(1, 1_000)
    }

    fn now() -> Instant<Self> {
        Instant::new(42)
    }
}

#[test]
fn instant_plus_converts_to_ticks() {
    let start = MillisecondClock::now();
    assert_eq!(start.ticks(), 42);
    let end = start.plus(Seconds(2_u32), MillisecondClock::period()).unwrap();
    assert_eq!(end.ticks(), 2_042);
}

#[test]
fn instant_plus_wraps_around() {
    let start = Instant::<MillisecondClock>::new(u32::MAX - 1);
    let end = start.plus(Milliseconds(5_u32), MillisecondClock::period()).unwrap();
    assert_eq!(end.ticks(), 3);
}

#[test]
fn delay_end_is_later_than_start() {
    let start = Instant::<MillisecondClock>::new(u32::MAX - 1);
    let end = Instant::<MillisecondClock>::new(u32::MAX - 1)
        .plus(Seconds(2_u32), MillisecondClock::period())
        .unwrap();
    assert!(start.is_before(&end));
    assert!(!end.is_before(&Instant::<MillisecondClock>::new(u32::MAX - 1)));
    let a = Instant::<MillisecondClock>::new(10);
    let b = Instant::<MillisecondClock>::new(10);
    assert!(!a.is_before(&b));
}

#[test]
fn instant_plus_reports_conversion_errors() {
    let start = Instant::<MillisecondClock>::new(0);
    assert_eq!(
        start.plus(Seconds(u32::MAX), MillisecondClock::period()).map(|i| i.ticks()),
        Err(embedded_time::ConversionError::Overflow)
    );
}

#[test]
fn new_timer_is_a_disarmed_one_shot() {
    let _timer: Timer<OneShot, Disarmed, MillisecondClock, Seconds<u32>> =
        MillisecondClock::new_timer::<Seconds<u32>>();
}
