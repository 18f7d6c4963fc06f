use veila::common::time::{
    duration_ms, duration_ms_between, duration_us, elapsed_ms, elapsed_us, Moment, Span,
};

#[test]
fn converts_durations_to_whole_units() {
    assert_eq!(duration_ms(Span::from_millis(1_500)), 1_500);
    assert_eq!(duration_us(Span::from_millis(2)), 2_000);
}

#[test]
fn saturates_instead_of_overflowing() {
    assert_eq!(duration_ms(Span::max()), u64::MAX);
    assert_eq!(duration_us(Span::max()), u64::MAX);
}

#[test]
fn measures_between_moments() {
    let start = Moment { nanos: 1_000_000 };
    let end = Moment { nanos: 4_999_999 };
    assert_eq!(elapsed_ms(start, end), 3);
    assert_eq!(elapsed_us(start, end), 3_999);
    assert_eq!(duration_ms_between(Some(start), end), Some(3));
    assert_eq!(duration_ms_between(Some(end), start), Some(0));
    assert_eq!(duration_ms_between(None, end), None);
}

#[test]
fn moments_are_moved_and_compared() {
    let start = Moment { nanos: 5 };
    assert_eq!(start.checked_add(Span { nanos: 7 }), Some(Moment { nanos: 12 }));
    assert_eq!(start.checked_add(Span::max()).is_none(), true);
    assert_eq!(Moment { nanos: 12 }.saturating_since(start), Span { nanos: 7 });
    assert_eq!(start.saturating_since(Moment { nanos: 12 }), Span { nanos: 0 });
}
