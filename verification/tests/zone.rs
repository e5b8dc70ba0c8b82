use amd::clock::duration_until;
use amd::clock::Span;
use amd::clock::TimeOfDay;
use amd::clock::Timestamp;
use amd::zone::duration_until_in_zone;
use amd::zone::zone_offset_at;

// 2024-03-10 00:00:00 UTC
const DAY_START: i64 = 1_710_028_800;

#[test]
fn kolkata_is_five_and_a_half_hours_ahead() {
    let now = Timestamp::new(DAY_START, 0);
    let zone = zone_offset_at("Asia/Kolkata", now).unwrap();
    assert_eq!(zone.seconds(), 19_800);
}

#[test]
fn utc_has_no_offset() {
    let now = Timestamp::new(DAY_START, 0);
    assert_eq!(zone_offset_at("UTC", now).unwrap().seconds(), 0);
}

#[test]
fn offset_follows_daylight_saving() {
    // New York: winter on 2024-01-15, summer on 2024-07-15.
    let winter = Timestamp::new(1_705_320_000, 0);
    let summer = Timestamp::new(1_721_044_800, 0);
    assert_eq!(zone_offset_at("America/New_York", winter).unwrap().seconds(), -18_000);
    assert_eq!(zone_offset_at("America/New_York", summer).unwrap().seconds(), -14_400);
}

#[test]
fn unknown_zone_has_no_offset() {
    let now = Timestamp::new(DAY_START, 0);
    assert!(zone_offset_at("Mars/Olympus_Mons", now).is_none());
    assert!(zone_offset_at("", now).is_none());
    assert!(duration_until_in_zone("Mars/Olympus_Mons", now, TimeOfDay::new(5, 0).unwrap())
        .is_none());
}

#[test]
fn instant_beyond_the_calendar_has_no_offset() {
    assert!(zone_offset_at("Asia/Kolkata", Timestamp::from_nanos(i128::MAX)).is_none());
    assert!(zone_offset_at("Asia/Kolkata", Timestamp::new(i64::MAX, 0)).is_none());
}

#[test]
fn delay_in_kolkata_before_five() {
    // 22:30 UTC is 04:00 in Kolkata.
    let now = Timestamp::new(DAY_START + 22 * 3600 + 30 * 60, 0);
    let five = TimeOfDay::new(5, 0).unwrap();
    assert_eq!(duration_until_in_zone("Asia/Kolkata", now, five), Some(Span::from_secs(3600)));
}

#[test]
fn delay_in_kolkata_after_five() {
    // 00:30 UTC is 06:00 in Kolkata.
    let now = Timestamp::new(DAY_START + 30 * 60, 0);
    let five = TimeOfDay::new(5, 0).unwrap();
    assert_eq!(
        duration_until_in_zone("Asia/Kolkata", now, five),
        Some(Span::from_secs(23 * 3600))
    );
}

#[test]
fn delay_in_a_named_zone_is_the_delay_at_its_offset() {
    let now = Timestamp::new(DAY_START + 12_345, 678);
    let target = TimeOfDay::new(18, 0).unwrap();
    let zone = zone_offset_at("Asia/Kolkata", now).unwrap();
    assert_eq!(
        duration_until_in_zone("Asia/Kolkata", now, target),
        Some(duration_until(now, zone, target))
    );
}
