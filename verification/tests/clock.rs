use amd::clock::duration_until;
use amd::clock::most_recent_occurrence;
use amd::clock::next_occurrence;
use amd::clock::Span;
use amd::clock::TimeOfDay;
use amd::clock::Timestamp;
use amd::clock::UtcOffset;

const HOUR: u64 = 3_600_000_000_000;

// 2024-03-10 00:00:00 UTC
const DAY_START: i64 = 1_710_028_800;

fn at(hour: i64, minute: i64, second: i64) -> Timestamp {
    Timestamp::new(DAY_START + hour * 3600 + minute * 60 + second, 0)
}

#[test]
fn delay_before_target_is_what_is_left_today() {
    let five = TimeOfDay::new(5, 0).unwrap();
    let wait = duration_until(at(4, 0, 0), UtcOffset::utc(), five);
    assert_eq!(wait, Span::from_nanos(HOUR));
    assert_eq!(wait.as_secs(), 3600);
    assert_eq!(wait.subsec_nanos(), 0);
}

#[test]
fn delay_after_target_runs_to_tomorrow() {
    let five = TimeOfDay::new(5, 0).unwrap();
    let wait = duration_until(at(6, 0, 0), UtcOffset::utc(), five);
    assert_eq!(wait, Span::from_nanos(23 * HOUR));
}

#[test]
fn delay_at_target_is_a_full_day() {
    let five = TimeOfDay::new(5, 0).unwrap();
    let wait = duration_until(at(5, 0, 0), UtcOffset::utc(), five);
    assert_eq!(wait, Span::from_nanos(24 * HOUR));
}

#[test]
fn delay_counts_nanoseconds() {
    let five = TimeOfDay::new(5, 0).unwrap();
    let now = Timestamp::new(DAY_START + 4 * 3600 + 59 * 60 + 59, 999_999_999);
    assert_eq!(duration_until(now, UtcOffset::utc(), five), Span::from_nanos(1));
}

#[test]
fn delay_is_counted_in_the_zone_given() {
    // 23:00 UTC is 04:30 the next day in a zone five and a half hours ahead.
    let zone = UtcOffset::from_seconds(19_800).unwrap();
    let five = TimeOfDay::new(5, 0).unwrap();
    let wait = duration_until(at(23, 0, 0), zone, five);
    assert_eq!(wait, Span::from_secs(1800));
    // In UTC the same instant is six hours short of 05:00.
    assert_eq!(duration_until(at(23, 0, 0), UtcOffset::utc(), five), Span::from_nanos(6 * HOUR));
}

#[test]
fn delay_crosses_local_midnight() {
    let zone = UtcOffset::from_seconds(-3600).unwrap();
    let target = TimeOfDay::new(0, 15).unwrap();
    // 00:50 UTC is 23:50 the day before, one hour behind.
    let wait = duration_until(at(0, 50, 0), zone, target);
    assert_eq!(wait, Span::from_secs(25 * 60));
}

#[test]
fn delay_before_the_epoch() {
    let target = TimeOfDay::new(23, 59).unwrap();
    let now = Timestamp::new(-60, 0);
    // 23:59:00 on the last day of 1969: exactly the target, so a full day.
    assert_eq!(duration_until(now, UtcOffset::utc(), target), Span::from_nanos(24 * HOUR));
    let now = Timestamp::new(-61, 0);
    assert_eq!(duration_until(now, UtcOffset::utc(), target), Span::from_secs(1));
}

#[test]
fn delay_is_the_same_when_asked_twice() {
    let zone = UtcOffset::from_seconds(19_800).unwrap();
    let target = TimeOfDay::new(18, 0).unwrap();
    let now = at(12, 34, 56);
    let first = duration_until(now, zone, target);
    let second = duration_until(now, zone, target);
    let third = duration_until(now, zone, target);
    assert_eq!(first, second);
    assert_eq!(second, third);
}

#[test]
fn delay_is_never_zero_over_a_day_of_minutes() {
    let zone = UtcOffset::from_seconds(19_800).unwrap();
    let target = TimeOfDay::new(5, 0).unwrap();
    let mut minute = 0;
    while minute < 24 * 60 {
        let wait = duration_until(at(0, minute, 0), zone, target);
        assert!(wait.nanos > 0);
        assert!(wait.nanos <= 24 * HOUR);
        minute += 1;
    }
}

#[test]
fn next_occurrence_adds_the_delay() {
    let five = TimeOfDay::new(5, 0).unwrap();
    assert_eq!(next_occurrence(at(4, 0, 0), UtcOffset::utc(), five), Some(at(5, 0, 0)));
    assert_eq!(next_occurrence(at(5, 0, 0), UtcOffset::utc(), five), Some(at(29, 0, 0)));
    let last = Timestamp::from_nanos(i128::MAX);
    assert_eq!(next_occurrence(last, UtcOffset::utc(), five), None);
}

#[test]
fn most_recent_occurrence_is_at_or_before_now() {
    let eight_pm = TimeOfDay::new(20, 0).unwrap();
    let utc = UtcOffset::utc();
    assert_eq!(most_recent_occurrence(at(5, 0, 0), utc, eight_pm), Some(at(-4, 0, 0)));
    assert_eq!(most_recent_occurrence(at(20, 0, 0), utc, eight_pm), Some(at(20, 0, 0)));
    assert_eq!(most_recent_occurrence(at(21, 0, 0), utc, eight_pm), Some(at(20, 0, 0)));
    let first = Timestamp::from_nanos(i128::MIN);
    assert_eq!(most_recent_occurrence(first, utc, eight_pm), None);
}

#[test]
fn time_of_day_takes_only_times_that_exist() {
    assert!(TimeOfDay::new(23, 59).is_some());
    assert!(TimeOfDay::new(24, 0).is_none());
    assert!(TimeOfDay::new(0, 60).is_none());
    let t = TimeOfDay::new(17, 45).unwrap();
    assert_eq!(t.hour(), 17);
    assert_eq!(t.minute(), 45);
}

#[test]
fn utc_offset_is_less_than_a_day() {
    assert!(UtcOffset::from_seconds(86_399).is_some());
    assert!(UtcOffset::from_seconds(-86_399).is_some());
    assert!(UtcOffset::from_seconds(86_400).is_none());
    assert!(UtcOffset::from_seconds(-86_400).is_none());
    assert_eq!(UtcOffset::from_seconds(19_800).unwrap().seconds(), 19_800);
    assert_eq!(UtcOffset::utc().seconds(), 0);
}

#[test]
fn timestamp_whole_seconds_round_down() {
    assert_eq!(Timestamp::new(5, 1).secs(), Some(5));
    assert_eq!(Timestamp::from_nanos(-1).secs(), Some(-1));
    assert_eq!(Timestamp::from_nanos(-1_000_000_000).secs(), Some(-1));
    assert_eq!(Timestamp::from_nanos(-1_000_000_001).secs(), Some(-2));
    assert_eq!(Timestamp::from_nanos(i128::MAX).secs(), None);
    assert_eq!(Timestamp::from_nanos(i128::MIN).secs(), None);
    assert_eq!(Timestamp::new(i64::MAX, 999_999_999).secs(), Some(i64::MAX));
    assert_eq!(Timestamp::new(i64::MIN, 0).secs(), Some(i64::MIN));
}
