use omnisec_agent::clock::Instant;

#[test]
fn the_epoch_is_written_without_a_fraction() {
    assert_eq!(
        Instant::new(0, 0).to_rfc3339(),
        Some("1970-01-01T00:00:00+00:00".to_string())
    );
}

#[test]
fn fractions_are_written_in_groups_of_three_digits() {
    assert_eq!(
        Instant::new(1_700_000_000, 250_000_000).to_rfc3339(),
        Some("2023-11-14T22:13:20.250+00:00".to_string())
    );
    assert_eq!(
        Instant::new(1_700_000_000, 250_001_000).to_rfc3339(),
        Some("2023-11-14T22:13:20.250001+00:00".to_string())
    );
    assert_eq!(
        Instant::new(1_700_000_000, 1).to_rfc3339(),
        Some("2023-11-14T22:13:20.000000001+00:00".to_string())
    );
}

#[test]
fn instants_before_the_epoch_have_a_date() {
    assert_eq!(
        Instant::new(-1, 0).to_rfc3339(),
        Some("1969-12-31T23:59:59+00:00".to_string())
    );
}

#[test]
fn an_instant_without_a_date_has_no_text() {
    assert_eq!(Instant::new(i64::MAX, 0).to_rfc3339(), None);
    assert_eq!(Instant::new(i64::MIN, 0).to_rfc3339(), None);
    assert_eq!(Instant::new(0, 2_000_000_000).to_rfc3339(), None);
    assert_eq!(Instant::new(0, 1_000_000_000).to_rfc3339(), None);
}

#[test]
fn instants_are_ordered_by_seconds_then_nanoseconds() {
    let early = Instant::new(5, 999_999_999);
    let late = Instant::new(6, 0);
    assert!(early.is_at_or_before(&late));
    assert!(!late.is_at_or_before(&early));
    assert!(early.is_at_or_before(&early));
    assert!(Instant::new(-2, 7).is_at_or_before(&Instant::new(-2, 8)));
    assert!(!Instant::new(-2, 8).is_at_or_before(&Instant::new(-2, 7)));
    assert!(Instant::new(-3, 8).is_at_or_before(&Instant::new(-2, 7)));
}

#[test]
fn the_clock_of_the_system_gives_an_instant_with_a_date() {
    let first = Instant::now();
    let second = Instant::now();
    assert!(first.secs > 1_600_000_000);
    assert!(first.nanos < 2_000_000_000);
    assert!(first.to_rfc3339().is_some());
    assert!(second.to_rfc3339().is_some());
}
