use pomctl::time::{Duration, Instant};

#[test]
fn spans_are_counted_to_the_nanosecond() {
    let span = Duration::new(3, 250_000_000);
    assert_eq!(span.as_secs(), 3);
    assert_eq!(span.subsec_nanos(), 250_000_000);
    assert_eq!(Duration::from_millis(1_500), Duration::new(1, 500_000_000));
    assert_eq!(Duration::new(0, 1_999_999_999), Duration::new(1, 999_999_999));
}

#[test]
fn subtraction_that_would_go_below_zero_stops_at_zero() {
    let short = Duration::from_secs(2);
    let long = Duration::from_secs(5);
    assert_eq!(long.saturating_sub(short), Duration::from_secs(3));
    assert!(short.saturating_sub(long).is_zero());
    assert_eq!(long.minus(short).plus(short), long);
}

#[test]
fn a_reading_taken_first_is_no_time_after_a_later_one() {
    let start = Instant::origin();
    let later = start.after(Duration::from_secs(30));
    assert_eq!(later.saturating_duration_since(start), Duration::from_secs(30));
    assert_eq!(start.saturating_duration_since(later), Duration::zero());
}

#[test]
fn the_longest_span_has_no_room_for_more() {
    let longest = Duration::new(u64::MAX, 999_999_999);
    assert!(!longest.fits_with(Duration::new(0, 1)));
    assert!(longest.fits_with(Duration::zero()));
}
