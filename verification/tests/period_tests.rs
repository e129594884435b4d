use embedded_time::{ConversionError, CoreDuration, Period};

#[test]
fn period_parts() {
    let p = Period::new(3, 7);
    assert_eq!(p.numerator(), 3);
    assert_eq!(p.denominator(), 7);
    assert!(Period::new(3_600, 1).is_greater_than_one());
    assert!(!Period::new(1, 1).is_greater_than_one());
    assert!(!Period::new(1, 1_000).is_greater_than_one());
    assert!(Period::new(1, 1_000).is_shorter_than(&Period::new(1, 1)));
    assert!(!Period::new(2, 2).is_shorter_than(&Period::new(1, 1)));
}

#[test]
fn period_quotient_in_lowest_terms() {
    let q = Period::new(1, 1_000).checked_div(&Period::new(1, 1_000_000)).unwrap();
    assert_eq!((q.numerator(), q.denominator()), (1_000, 1));
    let q = Period::new(1, 1_000_000).checked_div(&Period::new(1, 200)).unwrap();
    assert_eq!((q.numerator(), q.denominator()), (1, 5_000));
    let q = Period::new(0, 3).checked_div(&Period::new(5, 1)).unwrap();
    assert_eq!((q.numerator(), q.denominator()), (0, 1));
    let q = Period::new(6, 4).checked_div(&Period::new(9, 2)).unwrap();
    assert_eq!((q.numerator(), q.denominator()), (1, 3));
}

#[test]
fn period_quotient_errors() {
    assert_eq!(
        Period::new(1, 1).checked_div(&Period::new(0, 1)).map(|p| p.numerator()),
        Err(ConversionError::DivByZero)
    );
    assert_eq!(
        Period::new(1, 1_000_000_000).checked_div(&Period::new(3_600, 1)).map(|p| p.numerator()),
        Err(ConversionError::Overflow)
    );
}

#[test]
fn core_duration_parts() {
    let d = CoreDuration::from_nanos(5_025_678_901_234);
    assert_eq!(d.as_secs(), 5_025);
    assert_eq!(d.subsec_nanos(), 678_901_234);
    assert_eq!(d.as_millis(), 5_025_678);
    assert_eq!(d.as_micros(), 5_025_678_901);
    assert_eq!(d.as_nanos(), 5_025_678_901_234);
    assert_eq!(CoreDuration::new(1, 2_500_000_000), CoreDuration::from_millis(3_500));
    assert_eq!(CoreDuration::from_micros(1_500_000), CoreDuration::from_millis(1_500));
    assert_eq!(CoreDuration::from_secs(2).as_millis(), 2_000);
}
