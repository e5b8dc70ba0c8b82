//! Time-of-day arithmetic in an explicit zone.
//!
//! An instant is a count of nanoseconds since the Unix epoch. A zone is a
//! fixed offset from UTC. Every function takes the current instant as an
//! argument, so its result is a function of its arguments alone.

use vstd::prelude::*;
use vstd::arithmetic::div_mod::lemma_fundamental_div_mod;
use vstd::arithmetic::div_mod::lemma_fundamental_div_mod_converse;

verus! {

/// Nanoseconds in a second.
pub const NANOS_PER_SECOND: i128 = 1_000_000_000;

/// Nanoseconds in a day of twenty-four hours.
pub const NANOS_PER_DAY: i128 = 86_400_000_000_000;

/// A wall-clock time of day, to the minute.
#[derive(Clone, Copy, Debug)]
pub struct TimeOfDay {
    hour: u32,
    minute: u32,
}

impl TimeOfDay {
    /// The hour is below 24 and the minute below 60.
    #[verifier::type_invariant]
    pub closed spec fn wf(self) -> bool {
        self.hour < 24 && self.minute < 60
    }

    /// The hour, 0 to 23.
    pub closed spec fn spec_hour(&self) -> u32 {
        self.hour
    }

    /// The minute, 0 to 59.
    pub closed spec fn spec_minute(&self) -> u32 {
        self.minute
    }

    /// Nanoseconds from local midnight to this time of day.
    pub open spec fn nanos(self) -> int {
        (self.hour() * 3600 + self.minute() * 60) * NANOS_PER_SECOND
    }

    /// The time `hour:minute`, if the hour is below 24 and the minute below 60.
    pub fn new(hour: u32, minute: u32) -> (r: Option<TimeOfDay>)
        ensures
            r is Some <==> hour < 24 && minute < 60,
            r matches Some(t) ==> t == TimeOfDay::at(hour, minute) && t.wf() && t.hour() == hour
                && t.minute() == minute,
    {
        if hour < 24 && minute < 60 {
            Some(TimeOfDay { hour, minute })
        } else {
            None
        }
    }

    /// The time of day with that hour and that minute.
    pub closed spec fn spec_at(hour: u32, minute: u32) -> TimeOfDay {
        TimeOfDay { hour, minute }
    }

    /// The time `hour:minute`, for an hour and a minute that exist.
    #[verifier::when_used_as_spec(spec_at)]
    pub fn at(hour: u32, minute: u32) -> (t: TimeOfDay)
        requires
            hour < 24,
            minute < 60,
        ensures
            t == TimeOfDay::at(hour, minute),
            t.wf(),
            t.hour() == hour,
            t.minute() == minute,
    {
        TimeOfDay { hour, minute }
    }

    /// A time of day lies within the day.
    pub proof fn lemma_within_day(self)
        requires
            self.wf(),
        ensures
            0 <= self.nanos() < NANOS_PER_DAY,
            self.hour() < 24,
            self.minute() < 60,
    {
    }

    /// What `at` names: the time of day with that hour and that minute.
    pub proof fn lemma_at(hour: u32, minute: u32)
        ensures
            TimeOfDay::at(hour, minute).hour() == hour,
            TimeOfDay::at(hour, minute).minute() == minute,
            TimeOfDay::at(hour, minute).wf() <==> hour < 24 && minute < 60,
    {
    }

    /// The hour, 0 to 23.
    #[verifier::when_used_as_spec(spec_hour)]
    pub fn hour(&self) -> (r: u32)
        ensures
            r == self.hour(),
            r < 24,
    {
        proof {
            use_type_invariant(self);
        }
        self.hour
    }

    /// The minute, 0 to 59.
    #[verifier::when_used_as_spec(spec_minute)]
    pub fn minute(&self) -> (r: u32)
        ensures
            r == self.minute(),
            r < 60,
    {
        proof {
            use_type_invariant(self);
        }
        self.minute
    }
}

/// A zone that keeps a fixed distance from UTC.
#[derive(Clone, Copy, Debug)]
pub struct UtcOffset {
    seconds: i32,
}

impl UtcOffset {
    /// The offset is less than a day either way.
    #[verifier::type_invariant]
    pub closed spec fn wf(self) -> bool {
        -86_400 < self.seconds < 86_400
    }

    /// Seconds that the zone's clocks are ahead of UTC.
    pub closed spec fn spec_seconds(&self) -> i32 {
        self.seconds
    }

    /// What the zone's clocks are ahead of UTC, in nanoseconds.
    pub open spec fn nanos(self) -> int {
        self.seconds() * NANOS_PER_SECOND
    }

    /// A zone is less than a day from UTC either way.
    pub proof fn lemma_within_day(self)
        requires
            self.wf(),
        ensures
            -86_400 < self.seconds() < 86_400,
    {
    }

    /// The zone whose clocks run `seconds` ahead of UTC, if that is less
    /// than a day either way.
    pub fn from_seconds(seconds: i32) -> (r: Option<UtcOffset>)
        ensures
            r is Some <==> -86_400 < seconds < 86_400,
            r matches Some(z) ==> z.wf() && z.seconds() == seconds,
    {
        if -86_400 < seconds && seconds < 86_400 {
            Some(UtcOffset { seconds })
        } else {
            None
        }
    }

    /// UTC itself.
    pub fn utc() -> (z: UtcOffset)
        ensures
            z.wf(),
            z.seconds() == 0,
    {
        UtcOffset { seconds: 0 }
    }

    /// Seconds that the zone's clocks are ahead of UTC.
    #[verifier::when_used_as_spec(spec_seconds)]
    pub fn seconds(&self) -> (r: i32)
        ensures
            r == self.seconds(),
            -86_400 < r < 86_400,
    {
        proof {
            use_type_invariant(self);
        }
        self.seconds
    }
}

/// An instant: nanoseconds since 1970-01-01 00:00:00 UTC.
#[derive(Clone, Copy, Debug, PartialEq, Eq, Structural)]
pub struct Timestamp {
    pub nanos: i128,
}

impl Timestamp {
    /// The instant `nanos` nanoseconds after the epoch.
    pub fn from_nanos(nanos: i128) -> (t: Timestamp)
        ensures
            t.nanos == nanos,
    {
        Timestamp { nanos }
    }

    /// The instant `secs` whole seconds and `nanos` nanoseconds after the epoch.
    pub fn new(secs: i64, nanos: u32) -> (t: Timestamp)
        ensures
            t.nanos == secs * NANOS_PER_SECOND + nanos,
    {
        Timestamp { nanos: (secs as i128) * NANOS_PER_SECOND + (nanos as i128) }
    }

    /// Whole seconds since the epoch, rounded down.
    pub open spec fn whole_secs(self) -> int {
        (self.nanos as int) / (NANOS_PER_SECOND as int)
    }

    /// Whole seconds since the epoch, rounded down, where they fit.
    pub fn secs(&self) -> (r: Option<i64>)
        ensures
            match r {
                Some(s) => s == self.whole_secs(),
                None => self.whole_secs() < i64::MIN || self.whole_secs() > i64::MAX,
            },
    {
        let whole: i128 = if self.nanos >= 0 {
            self.nanos / NANOS_PER_SECOND
        } else {
            let below: i128 = -(self.nanos + 1);
            let whole: i128 = -(below / NANOS_PER_SECOND) - 1;
            proof {
                let d = NANOS_PER_SECOND as int;
                let q = below as int / d;
                let r = below as int % d;
                lemma_fundamental_div_mod(below as int, d);
                assert(self.nanos == (-q - 1) * d + (d - 1 - r)) by (nonlinear_arith)
                    requires
                        below == d * q + r,
                        below == -(self.nanos + 1),
                ;
                lemma_fundamental_div_mod_converse(self.nanos as int, d, -q - 1, d - 1 - r);
            }
            whole
        };
        if whole < i64::MIN as i128 || whole > i64::MAX as i128 {
            None
        } else {
            Some(whole as i64)
        }
    }

    /// This instant moved forward by `span`, where that can be represented.
    pub fn checked_add(&self, span: Span) -> (r: Option<Timestamp>)
        ensures
            match r {
                Some(t) => t.nanos == self.nanos + span.nanos,
                None => self.nanos + span.nanos > i128::MAX,
            },
    {
        match self.nanos.checked_add(span.nanos as i128) {
            Some(nanos) => Some(Timestamp { nanos }),
            None => None,
        }
    }
}

/// A length of time that is not negative, in nanoseconds.
#[derive(Clone, Copy, Debug, PartialEq, Eq, Structural)]
pub struct Span {
    pub nanos: u64,
}

impl Span {
    /// A span of `nanos` nanoseconds.
    pub fn from_nanos(nanos: u64) -> (s: Span)
        ensures
            s.nanos == nanos,
    {
        Span { nanos }
    }

    /// A span of `secs` seconds.
    pub fn from_secs(secs: u32) -> (s: Span)
        ensures
            s.nanos == secs * NANOS_PER_SECOND,
    {
        Span { nanos: (secs as u64) * 1_000_000_000 }
    }

    /// Whole seconds in the span.
    pub fn as_secs(&self) -> (r: u64)
        ensures
            r == self.nanos / 1_000_000_000,
    {
        self.nanos / 1_000_000_000
    }

    /// What is left of the span beyond its whole seconds, in nanoseconds.
    pub fn subsec_nanos(&self) -> (r: u32)
        ensures
            r == self.nanos % 1_000_000_000,
    {
        (self.nanos % 1_000_000_000) as u32
    }
}

/// How far the zone's clocks are past local midnight at `now`, in
/// nanoseconds.
pub open spec fn nanos_of_day(now: Timestamp, offset_secs: int) -> int {
    (now.nanos + offset_secs * NANOS_PER_SECOND) % (NANOS_PER_DAY as int)
}

/// The instant at which the zone's clocks show `target` on the local day
/// that holds `now`.
pub open spec fn target_today(now: Timestamp, offset_secs: int, target: TimeOfDay) -> int {
    now.nanos - nanos_of_day(now, offset_secs) + target.nanos()
}

/// Nanoseconds from `now` to the next instant after it at which the zone's
/// clocks show `target`.
pub open spec fn delay_nanos(now: Timestamp, offset_secs: int, target: TimeOfDay) -> int {
    if now.nanos < target_today(now, offset_secs, target) {
        target_today(now, offset_secs, target) - now.nanos
    } else {
        target_today(now, offset_secs, target) + NANOS_PER_DAY - now.nanos
    }
}

/// The latest instant at or before `now` at which the zone's clocks show
/// `target`.
pub open spec fn recent_nanos(now: Timestamp, offset_secs: int, target: TimeOfDay) -> int {
    if target_today(now, offset_secs, target) <= now.nanos {
        target_today(now, offset_secs, target)
    } else {
        target_today(now, offset_secs, target) - NANOS_PER_DAY
    }
}

/// Nanoseconds past local midnight at `now`, computed without overflow.
fn local_nanos_of_day(now: Timestamp, zone: UtcOffset) -> (r: i128)
    requires
        zone.wf(),
    ensures
        r == nanos_of_day(now, zone.seconds() as int),
        0 <= r < NANOS_PER_DAY,
{
    let base: i128 = match now.nanos.checked_rem_euclid(NANOS_PER_DAY) {
        Some(r) => r,
        None => 0,
    };
    let shifted: i128 = base + (zone.seconds() as i128) * NANOS_PER_SECOND;
    let wrapped: i128 = if shifted < 0 {
        shifted + NANOS_PER_DAY
    } else if shifted >= NANOS_PER_DAY {
        shifted - NANOS_PER_DAY
    } else {
        shifted
    };
    proof {
        let day = NANOS_PER_DAY as int;
        let q = now.nanos as int / day;
        lemma_fundamental_div_mod(now.nanos as int, day);
        let k: int = if shifted < 0 {
            q - 1
        } else if shifted >= NANOS_PER_DAY {
            q + 1
        } else {
            q
        };
        assert(now.nanos + zone.seconds() * NANOS_PER_SECOND == k * day + wrapped) by {
            assert((q - 1) * day == q * day - day) by (nonlinear_arith);
            assert((q + 1) * day == q * day + day) by (nonlinear_arith);
        }
        lemma_fundamental_div_mod_converse(now.nanos + zone.seconds() * NANOS_PER_SECOND, day, k, wrapped as int);
    }
    wrapped
}

/// The time from `now` until the zone's clocks next show `target`: later
/// today where that is still ahead, otherwise tomorrow. It is never zero:
/// at the very instant of `target` the answer is a full day.
pub fn duration_until(now: Timestamp, zone: UtcOffset, target: TimeOfDay) -> (r: Span)
    ensures
        r.nanos == delay_nanos(now, zone.seconds() as int, target),
        0 < r.nanos <= NANOS_PER_DAY,
{
    proof {
        use_type_invariant(zone);
        use_type_invariant(target);
    }
    let elapsed: i128 = local_nanos_of_day(now, zone);
    let wanted: i128 = ((target.hour() as i128) * 3600 + (target.minute() as i128) * 60)
        * NANOS_PER_SECOND;
    let wait: i128 = if elapsed < wanted {
        wanted - elapsed
    } else {
        NANOS_PER_DAY - (elapsed - wanted)
    };
    Span { nanos: wait as u64 }
}

/// The instant at which the zone's clocks next show `target` after `now`,
/// where it can be represented.
pub fn next_occurrence(now: Timestamp, zone: UtcOffset, target: TimeOfDay) -> (r: Option<
    Timestamp,
>)
    ensures
        match r {
            Some(t) => t.nanos == now.nanos + delay_nanos(now, zone.seconds() as int, target),
            None => now.nanos + delay_nanos(now, zone.seconds() as int, target) > i128::MAX,
        },
{
    now.checked_add(duration_until(now, zone, target))
}

/// The latest instant at or before `now` at which the zone's clocks showed
/// `target`, where it can be represented.
pub fn most_recent_occurrence(now: Timestamp, zone: UtcOffset, target: TimeOfDay) -> (r: Option<
    Timestamp,
>)
    ensures
        match r {
            Some(t) => t.nanos == recent_nanos(now, zone.seconds() as int, target),
            None => recent_nanos(now, zone.seconds() as int, target) < i128::MIN,
        },
{
    proof {
        use_type_invariant(zone);
        use_type_invariant(target);
    }
    let elapsed: i128 = local_nanos_of_day(now, zone);
    let wanted: i128 = ((target.hour() as i128) * 3600 + (target.minute() as i128) * 60)
        * NANOS_PER_SECOND;
    let back: i128 = if wanted <= elapsed {
        elapsed - wanted
    } else {
        elapsed + NANOS_PER_DAY - wanted
    };
    match now.nanos.checked_sub(back) {
        Some(nanos) => Some(Timestamp { nanos }),
        None => None,
    }
}

/// The instant at which the zone's clocks show `target` on the local day
/// that holds `now`, where it can be represented. It may lie before or
/// after `now`.
pub fn occurrence_today(now: Timestamp, zone: UtcOffset, target: TimeOfDay) -> (r: Option<
    Timestamp,
>)
    ensures
        match r {
            Some(t) => t.nanos == target_today(now, zone.seconds() as int, target),
            None => {
                ||| target_today(now, zone.seconds() as int, target) < i128::MIN
                ||| target_today(now, zone.seconds() as int, target) > i128::MAX
            },
        },
{
    proof {
        use_type_invariant(zone);
        use_type_invariant(target);
    }
    let elapsed: i128 = local_nanos_of_day(now, zone);
    let wanted: i128 = ((target.hour() as i128) * 3600 + (target.minute() as i128) * 60)
        * NANOS_PER_SECOND;
    match now.nanos.checked_add(wanted - elapsed) {
        Some(nanos) => Some(Timestamp { nanos }),
        None => None,
    }
}

/// Before today's target the wait is exactly what is left until it, on the
/// same local day.
pub proof fn lemma_delay_before_target(now: Timestamp, offset_secs: int, target: TimeOfDay)
    requires
        target.wf(),
        nanos_of_day(now, offset_secs) < target.nanos(),
    ensures
        delay_nanos(now, offset_secs, target) == target.nanos() - nanos_of_day(now, offset_secs),
        delay_nanos(now, offset_secs, target) == target_today(now, offset_secs, target) - now.nanos,
        nanos_of_day(now, offset_secs) + delay_nanos(now, offset_secs, target) < NANOS_PER_DAY,
{
}

/// At or after today's target the wait runs to tomorrow's target, a day
/// after today's, and is positive.
pub proof fn lemma_delay_from_target_on(now: Timestamp, offset_secs: int, target: TimeOfDay)
    requires
        target.wf(),
        nanos_of_day(now, offset_secs) >= target.nanos(),
    ensures
        delay_nanos(now, offset_secs, target) == target_today(now, offset_secs, target) + NANOS_PER_DAY
            - now.nanos,
        delay_nanos(now, offset_secs, target) == NANOS_PER_DAY - (nanos_of_day(now, offset_secs)
            - target.nanos()),
        delay_nanos(now, offset_secs, target) > 0,
{
    lemma_nanos_of_day_range(now, offset_secs);
}

/// The wait is never negative and never zero, and never more than a day.
pub proof fn lemma_delay_positive(now: Timestamp, offset_secs: int, target: TimeOfDay)
    requires
        target.wf(),
    ensures
        0 < delay_nanos(now, offset_secs, target) <= NANOS_PER_DAY,
{
    lemma_nanos_of_day_range(now, offset_secs);
}

/// Exactly at the target the wait is a full day.
pub proof fn lemma_delay_at_target(now: Timestamp, offset_secs: int, target: TimeOfDay)
    requires
        target.wf(),
        nanos_of_day(now, offset_secs) == target.nanos(),
    ensures
        delay_nanos(now, offset_secs, target) == NANOS_PER_DAY,
{
}

/// The wait ends at the first instant after `now` at which the zone's
/// clocks show `target`: they show it then, and at no instant in between.
pub proof fn lemma_delay_reaches_target(
    now: Timestamp,
    offset_secs: int,
    target: TimeOfDay,
    between: Timestamp,
)
    requires
        target.wf(),
    ensures
        nanos_of_day(
            Timestamp { nanos: (now.nanos + delay_nanos(now, offset_secs, target)) as i128 },
            offset_secs,
        ) == target.nanos() || now.nanos + delay_nanos(now, offset_secs, target) > i128::MAX,
        now.nanos < between.nanos < now.nanos + delay_nanos(now, offset_secs, target) ==> nanos_of_day(
            between,
            offset_secs,
        ) != target.nanos(),
{
    let day = NANOS_PER_DAY as int;
    let local = now.nanos + offset_secs * NANOS_PER_SECOND;
    let q = local / day;
    let wait = delay_nanos(now, offset_secs, target);
    lemma_fundamental_div_mod(local, day);
    lemma_nanos_of_day_range(now, offset_secs);
    let k: int = if nanos_of_day(now, offset_secs) < target.nanos() {
        q
    } else {
        q + 1
    };
    assert(local + wait == k * day + target.nanos()) by (nonlinear_arith)
        requires
            local == day * q + nanos_of_day(now, offset_secs),
            wait == k * day + target.nanos() - day * q - nanos_of_day(now, offset_secs),
    ;
    lemma_fundamental_div_mod_converse(local + wait, day, k, target.nanos());
    if now.nanos < between.nanos < now.nanos + wait {
        let other = between.nanos + offset_secs * NANOS_PER_SECOND;
        let p = other / day;
        lemma_fundamental_div_mod(other, day);
        if nanos_of_day(between, offset_secs) == target.nanos() {
            assert(k * day - day < p * day < k * day) by (nonlinear_arith)
                requires
                    other == day * p + target.nanos(),
                    local + wait == k * day + target.nanos(),
                    local < other < local + wait,
                    0 < wait <= day,
            ;
            assert(false) by (nonlinear_arith)
                requires
                    k * day - day < p * day < k * day,
                    day > 0,
            ;
        }
    }
}

/// The wait depends on the instant, the offset_secs and the target alone: two
/// calls of `duration_until` on the same three return the same span.
pub proof fn lemma_duration_until_is_a_function(
    now: Timestamp,
    zone: UtcOffset,
    target: TimeOfDay,
    first: Span,
    second: Span,
)
    requires
        call_ensures(duration_until, (now, zone, target), first),
        call_ensures(duration_until, (now, zone, target), second),
    ensures
        first == second,
{
}

/// The zone's clocks are always at least zero and less than a day past
/// local midnight.
pub proof fn lemma_nanos_of_day_range(now: Timestamp, offset_secs: int)
    ensures
        0 <= nanos_of_day(now, offset_secs) < NANOS_PER_DAY,
{
    lemma_fundamental_div_mod(now.nanos + offset_secs * NANOS_PER_SECOND, NANOS_PER_DAY as int);
}

/// The latest showing of `target` lies at or before `now`, less than a day
/// back and a day before the next one; the zone's clocks show `target`
/// then, and at no instant after it up to `now`.
pub proof fn lemma_recent_is_latest(
    now: Timestamp,
    offset_secs: int,
    target: TimeOfDay,
    between: Timestamp,
)
    requires
        target.wf(),
    ensures
        now.nanos - NANOS_PER_DAY < recent_nanos(now, offset_secs, target) <= now.nanos,
        recent_nanos(now, offset_secs, target) + NANOS_PER_DAY == now.nanos + delay_nanos(
            now,
            offset_secs,
            target,
        ),
        recent_nanos(now, offset_secs, target) < i128::MIN || nanos_of_day(
            Timestamp { nanos: recent_nanos(now, offset_secs, target) as i128 },
            offset_secs,
        ) == target.nanos(),
        recent_nanos(now, offset_secs, target) < between.nanos <= now.nanos ==> nanos_of_day(
            between,
            offset_secs,
        ) != target.nanos(),
{
    let day = NANOS_PER_DAY as int;
    let wanted = target.nanos();
    let recent = recent_nanos(now, offset_secs, target);
    let local_now = now.nanos + offset_secs * NANOS_PER_SECOND;
    let q = local_now / day;
    lemma_nanos_of_day_range(now, offset_secs);
    lemma_fundamental_div_mod(local_now, day);
    let k: int = if nanos_of_day(now, offset_secs) >= wanted {
        q
    } else {
        q - 1
    };
    assert(recent + offset_secs * NANOS_PER_SECOND == k * day + wanted) by (nonlinear_arith)
        requires
            local_now == day * q + nanos_of_day(now, offset_secs),
            local_now == now.nanos + offset_secs * NANOS_PER_SECOND,
            recent == now.nanos - nanos_of_day(now, offset_secs) + wanted + (k - q) * day,
    ;
    if recent >= i128::MIN {
        lemma_fundamental_div_mod_converse(
            recent + offset_secs * NANOS_PER_SECOND,
            day,
            k,
            wanted,
        );
    }
    if recent < between.nanos <= now.nanos {
        let other = between.nanos + offset_secs * NANOS_PER_SECOND;
        let p = other / day;
        lemma_fundamental_div_mod(other, day);
        if nanos_of_day(between, offset_secs) == wanted {
            assert(k * day < p * day < k * day + day) by (nonlinear_arith)
                requires
                    other == day * p + wanted,
                    recent + offset_secs * NANOS_PER_SECOND == k * day + wanted,
                    recent + offset_secs * NANOS_PER_SECOND < other,
                    other <= local_now,
                    local_now - (recent + offset_secs * NANOS_PER_SECOND) < day,
            ;
            assert(false) by (nonlinear_arith)
                requires
                    k * day < p * day < k * day + day,
                    day > 0,
            ;
        }
    }
}

} // verus!
