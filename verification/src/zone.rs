//! Named zones of the IANA time zone database.

use vstd::prelude::*;
use crate::clock::duration_until;
use crate::clock::delay_nanos;
use crate::clock::Span;
use crate::clock::TimeOfDay;
use crate::clock::Timestamp;
use crate::clock::UtcOffset;

verus! {

/// Seconds that the clocks of the zone named `zone` are ahead of UTC at
/// `utc_secs` seconds after the epoch; `None` where the database has no
/// zone of that name or the calendar cannot hold the instant.
pub uninterp spec fn zone_offset_seconds(zone: Seq<char>, utc_secs: i64) -> Option<i32>;

/// Looks the zone up with `chrono_tz::Tz::from_str` and asks it, through
/// `chrono::TimeZone::offset_from_utc_datetime`, for the offset in force at
/// the instant that `chrono::DateTime::from_timestamp` makes of `utc_secs`.
/// The lookup walks tables compiled into the database crate, so equal
/// arguments give equal results. `chrono::FixedOffset` holds less than a
/// day either way, which is the bound claimed.
#[verifier::external_body]
fn lookup_offset_seconds(zone: &str, utc_secs: i64) -> (r: Option<i32>)
    ensures
        r == zone_offset_seconds(zone@, utc_secs),
        r matches Some(seconds) ==> -86_400 < seconds < 86_400,
{
    let tz: chrono_tz::Tz = match zone.parse() {
        Ok(tz) => tz,
        Err(_) => return None,
    };
    let at = chrono::DateTime::from_timestamp(utc_secs, 0)?;
    let offset = chrono::TimeZone::offset_from_utc_datetime(&tz, &at.naive_utc());
    Some(chrono::Offset::fix(&offset).local_minus_utc())
}

/// The offset that counts at `now` in the zone named `zone`: what the
/// database gives for the whole second that holds `now`.
pub open spec fn offset_in_force(zone: Seq<char>, now: Timestamp) -> Option<i32> {
    if i64::MIN <= now.whole_secs() <= i64::MAX {
        zone_offset_seconds(zone, now.whole_secs() as i64)
    } else {
        None
    }
}

/// The offset from UTC that the zone named `zone` keeps at `now`.
pub fn zone_offset_at(zone: &str, now: Timestamp) -> (r: Option<UtcOffset>)
    ensures
        r is Some <==> offset_in_force(zone@, now) is Some,
        r matches Some(z) ==> z.wf() && Some(z.seconds()) == offset_in_force(zone@, now),
{
    match now.secs() {
        Some(secs) => match lookup_offset_seconds(zone, secs) {
            Some(seconds) => UtcOffset::from_seconds(seconds),
            None => None,
        },
        None => None,
    }
}

/// The time from `now` until the clocks of the zone named `zone` next show
/// `target`, counted with the offset that the zone keeps at `now`.
pub fn duration_until_in_zone(zone: &str, now: Timestamp, target: TimeOfDay) -> (r: Option<Span>)
    ensures
        r is Some <==> offset_in_force(zone@, now) is Some,
        r matches Some(span) ==> span.nanos == delay_nanos(
            now,
            offset_in_force(zone@, now)->0 as int,
            target,
        ),
        r matches Some(span) ==> 0 < span.nanos <= crate::clock::NANOS_PER_DAY,
{
    match zone_offset_at(zone, now) {
        Some(offset) => Some(duration_until(now, offset, target)),
        None => None,
    }
}

} // verus!
