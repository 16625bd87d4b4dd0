use human_duration::{Duration, RawSeconds, TimeUnit, TimeUnitKind};

#[test]
fn zero_seconds_render_empty() {
    let d = Duration::new(0);
    assert_eq!(d, Duration::new_zeroed());
    assert_eq!(d.to_string(), "");
    assert!(d.iter_units().is_empty());
    assert_eq!(RawSeconds::from(d), RawSeconds(0));
}

#[test]
fn zero_amount_keeps_singular_noun() {
    assert_eq!(TimeUnit::new(TimeUnitKind::Seconds, 0).to_string(), "0 second");
    assert_eq!(TimeUnit::new(TimeUnitKind::Years, 0).to_string(), "0 year");
}

#[test]
fn plural_for_larger_amounts() {
    assert_eq!(TimeUnit::new(TimeUnitKind::Days, 10).to_string(), "10 days");
    assert_eq!(TimeUnit::new(TimeUnitKind::Minutes, 1234567).to_string(), "1234567 minutes");
    assert_eq!(
        TimeUnit::new(TimeUnitKind::Seconds, 18446744073709551615).to_string(),
        "18446744073709551615 seconds"
    );
}

#[test]
fn single_unit_renderings() {
    assert_eq!(Duration::new(1).to_string(), "1 second.");
    assert_eq!(Duration::new(120).to_string(), "2 minutes.");
    assert_eq!(Duration::new(86_400).to_string(), "1 day.");
    assert_eq!(Duration::new(31_536_000).to_string(), "1 year.");
}

#[test]
fn two_units_skip_zero_fields() {
    assert_eq!(Duration::new(3599).to_string(), "59 minutes and 59 seconds.");
    assert_eq!(Duration::new(31_536_001).to_string(), "1 year and 1 second.");
}

#[test]
fn four_units_join() {
    assert_eq!(Duration::new(90_061).to_string(), "1 day, 1 hour, 1 minute and 1 second.");
    assert_eq!(Duration::new(63_158_461).to_string(), "2 years, 1 day, 1 minute and 1 second.");
}

#[test]
fn units_come_coarsest_first() {
    let d = Duration::new(31_536_000 + 3_600 + 5);
    assert_eq!(
        d.iter_units(),
        vec![
            TimeUnit::new(TimeUnitKind::Years, 1),
            TimeUnit::new(TimeUnitKind::Hours, 1),
            TimeUnit::new(TimeUnitKind::Seconds, 5),
        ]
    );
    let all = Duration::new(35_344_799).iter_units();
    let kinds: Vec<TimeUnitKind> = all.iter().map(|u| u.kind).collect();
    assert_eq!(
        kinds,
        vec![
            TimeUnitKind::Years,
            TimeUnitKind::Days,
            TimeUnitKind::Hours,
            TimeUnitKind::Minutes,
            TimeUnitKind::Seconds,
        ]
    );
}

#[test]
fn decomposition_bounds_and_years() {
    for s in [0usize, 59, 60, 3599, 86_399, 31_535_999, 35_344_799, 1_000_000_000, usize::MAX] {
        let d = Duration::new(s);
        assert!(d.seconds.amount < 60);
        assert!(d.minutes.amount < 60);
        assert!(d.hours.amount < 24);
        assert!(d.days.amount < 365);
        assert_eq!(d.years.amount, s / 31_536_000);
        assert_eq!(d.seconds.kind, TimeUnitKind::Seconds);
        assert_eq!(d.years.kind, TimeUnitKind::Years);
    }
    let d = Duration::new(31_535_999);
    assert_eq!(d.days.amount, 364);
    assert_eq!(d.hours.amount, 23);
    assert_eq!(d.years.amount, 0);
}

#[test]
fn round_trip_gives_back_the_seconds() {
    for s in [0usize, 1, 61, 3601, 90_061, 31_536_000, 1_000_000_000, usize::MAX] {
        assert_eq!(RawSeconds::from(Duration::new(s)), RawSeconds(s));
    }
}

#[test]
fn unit_into_seconds() {
    assert_eq!(RawSeconds::from(TimeUnit::new(TimeUnitKind::Seconds, 7)), RawSeconds(7));
    assert_eq!(RawSeconds::from(TimeUnit::new(TimeUnitKind::Minutes, 2)), RawSeconds(120));
    assert_eq!(RawSeconds::from(TimeUnit::new(TimeUnitKind::Hours, 3)), RawSeconds(10_800));
    assert_eq!(RawSeconds::from(TimeUnit::new(TimeUnitKind::Days, 2)), RawSeconds(172_800));
    assert_eq!(RawSeconds::from(TimeUnit::new(TimeUnitKind::Years, 1)), RawSeconds(31_536_000));
}

#[test]
fn overflowing_total_wraps() {
    let huge = TimeUnit::new(TimeUnitKind::Years, usize::MAX);
    assert_eq!(RawSeconds::from(huge), RawSeconds(usize::MAX - 31_535_999));
    let mut d = Duration::new_zeroed();
    d.years = huge;
    d.seconds.amount = 31_535_999;
    assert_eq!(RawSeconds::from(d), RawSeconds(usize::MAX));
    d.seconds.amount = 31_536_000;
    assert_eq!(RawSeconds::from(d), RawSeconds(0));
}

#[test]
fn unit_equality_needs_kind_and_amount() {
    let a = TimeUnit::new(TimeUnitKind::Days, 3);
    assert_eq!(a, TimeUnit::new(TimeUnitKind::Days, 3));
    assert_ne!(a, TimeUnit::new(TimeUnitKind::Hours, 3));
    assert_ne!(a, TimeUnit::new(TimeUnitKind::Days, 4));
}
