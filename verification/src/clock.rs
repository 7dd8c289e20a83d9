//! Points in time and the time zones that give them a calendar date.

use chrono::{Offset, TimeZone};
use vstd::prelude::*;
use crate::calendar::{in_calendar, Date, MAX_DAY, MIN_DAY};
use crate::fetch::rate_limit::{is_pause, Pause};
use crate::text::copy;

verus! {

/// Fallback IANA zone when the warehouse has no usable `timezone` config.
pub const DEFAULT_TIMEZONE: &'static str = "America/Los_Angeles";

/// The number of seconds in a day.
pub const DAY_SECONDS: i64 = 86400;

/// The day number of January 1, 1970.
pub const EPOCH_DAY: i64 = 719163;

// ---------------------------------------------------------------- instants

/// The model of an instant: seconds since the epoch, and nanoseconds beyond
/// them (a second or more within a leap second).
pub ghost struct Moment {
    pub seconds: int,
    pub nanos: int,
}

/// The UTC day of a count of seconds since the epoch.
pub open spec fn utc_day(seconds: int) -> int {
    seconds / 86400 + EPOCH_DAY
}

/// The instant lies in the calendar.
pub open spec fn is_moment(moment: Moment) -> bool {
    in_calendar(utc_day(moment.seconds)) && 0 <= moment.nanos < 2_000_000_000
}

/// A point in time, to the nanosecond.
#[derive(Clone, Copy, PartialEq, Eq, Structural, Debug)]
pub struct Instant {
    seconds: i64,
    nanos: u32,
}

impl View for Instant {
    type V = Moment;

    closed spec fn view(&self) -> Moment {
        Moment { seconds: self.seconds as int, nanos: self.nanos as int }
    }
}

/// What reading a text as an RFC 3339 timestamp yields: the seconds since the
/// epoch and the nanoseconds, or the text of the parse error.
pub uninterp spec fn parsed_instant(text: Seq<char>) -> Result<(int, int), Seq<char>>;

/// Calls `str::parse` for `chrono::DateTime<Utc>`. The outcome depends on the
/// text alone, and a parsed timestamp lies in the calendar.
#[verifier::external_body]
fn chrono_parse_instant(text: &str) -> (outcome: Result<(i64, u32), String>)
    ensures
        match outcome {
            Ok((seconds, nanos)) => parsed_instant(text@) == Ok::<(int, int), Seq<char>>(
                (seconds as int, nanos as int),
            ) && is_moment(Moment { seconds: seconds as int, nanos: nanos as int }),
            Err(message) => parsed_instant(text@) == Err::<(int, int), Seq<char>>(message@),
        },
{
    match text.parse::<chrono::DateTime<chrono::Utc>>() {
        Ok(instant) => Ok((instant.timestamp(), instant.timestamp_subsec_nanos())),
        Err(error) => Err(error.to_string()),
    }
}

/// The second of the day.
pub open spec fn second_of_day(seconds: int) -> int {
    seconds % 86400
}

/// The nanoseconds from `earlier` to `later`. A leap second between the two
/// times of day is counted.
pub open spec fn nanos_between(later: Moment, earlier: Moment) -> int {
    let leap: int = if second_of_day(later.seconds) > second_of_day(earlier.seconds) {
        if earlier.nanos >= 1_000_000_000 {
            1
        } else {
            0
        }
    } else if second_of_day(later.seconds) < second_of_day(earlier.seconds) {
        if later.nanos >= 1_000_000_000 {
            -1
        } else {
            0
        }
    } else {
        0
    };
    (later.seconds - earlier.seconds + leap) * 1_000_000_000 + later.nanos - earlier.nanos
}

impl Instant {
    /// Every instant lies in the calendar.
    #[verifier::type_invariant]
    pub open spec fn wf(self) -> bool {
        is_moment(self@)
    }

    /// The instant with the given parts, if it lies in the calendar.
    pub fn new(seconds: i64, nanos: u32) -> (instant: Option<Instant>)
        ensures
            match instant {
                Some(instant) => instant@ == (Moment { seconds: seconds as int, nanos: nanos as int }),
                None => !is_moment(Moment { seconds: seconds as int, nanos: nanos as int }),
            },
    {
        let day: i64 = floor_div(seconds, DAY_SECONDS) + EPOCH_DAY;
        if MIN_DAY as i64 <= day && day <= MAX_DAY as i64 && nanos < 2_000_000_000 {
            Some(Instant { seconds, nanos })
        } else {
            None
        }
    }

    /// Read an RFC 3339 timestamp; the error is the parser's own message.
    pub fn parse(text: &str) -> (outcome: Result<Instant, String>)
        ensures
            match outcome {
                Ok(instant) => parsed_instant(text@) == Ok::<(int, int), Seq<char>>(
                    (instant@.seconds, instant@.nanos),
                ),
                Err(message) => parsed_instant(text@) == Err::<(int, int), Seq<char>>(message@),
            },
    {
        match chrono_parse_instant(text) {
            Ok((seconds, nanos)) => Ok(Instant { seconds, nanos }),
            Err(message) => Err(message),
        }
    }

    /// Does the instant keep its distance from both ends of the calendar, so
    /// that it has a date in every zone, and each date a week before it?
    pub fn is_inside_calendar(&self) -> (yes: bool)
        ensures
            yes == (MIN_DAY + 5 <= utc_day(self@.seconds) < MAX_DAY),
            yes ==> has_local_date(self@),
    {
        let day: i32 = self.utc_date().day_number();
        MIN_DAY + 5 <= day && day < MAX_DAY
    }

    /// Seconds since the epoch.
    pub fn seconds(&self) -> (seconds: i64)
        ensures
            seconds == self@.seconds,
    {
        self.seconds
    }

    /// Nanoseconds beyond the full second.
    pub fn nanos(&self) -> (nanos: u32)
        ensures
            nanos == self@.nanos,
    {
        self.nanos
    }

    /// The nanoseconds from `earlier` to this instant.
    fn nanos_since(&self, earlier: &Instant) -> (gap: i128)
        ensures
            gap == nanos_between(self@, earlier@),
            -10_000_000_000_000_000_000_000_000 < gap < 10_000_000_000_000_000_000_000_000,
    {
        proof {
            use_type_invariant(self);
            use_type_invariant(earlier);
        }
        let mine: i64 = floor_mod(self.seconds, DAY_SECONDS);
        let theirs: i64 = floor_mod(earlier.seconds, DAY_SECONDS);
        let mut leap: i128 = 0;
        if mine > theirs && earlier.nanos >= 1_000_000_000 {
            leap = 1;
        }
        if mine < theirs && self.nanos >= 1_000_000_000 {
            leap = -1;
        }
        (self.seconds as i128 - earlier.seconds as i128 + leap) * 1_000_000_000 + self.nanos as i128
            - earlier.nanos as i128
    }

    /// Is this instant fewer than `seconds` seconds later than `earlier`?
    pub fn is_within(&self, earlier: &Instant, seconds: u32) -> (yes: bool)
        ensures
            yes == (nanos_between(self@, earlier@) < seconds * 1_000_000_000),
    {
        self.nanos_since(earlier) < seconds as i128 * 1_000_000_000
    }

    /// The time that passes from `earlier` to this instant, unless it is
    /// negative.
    pub fn pause_since(&self, earlier: &Instant) -> (pause: Option<Pause>)
        ensures
            match pause {
                Some(pause) => nanos_between(self@, earlier@) >= 0 && is_pause(
                    pause,
                    nanos_between(self@, earlier@),
                ),
                None => nanos_between(self@, earlier@) < 0,
            },
    {
        let gap: i128 = self.nanos_since(earlier);
        if gap < 0 {
            return None;
        }
        Some(
            Pause {
                seconds: (gap / 1_000_000_000) as u64,
                nanos: (gap % 1_000_000_000) as u32,
            },
        )
    }

    /// The UTC date.
    pub fn utc_date(&self) -> (date: Date)
        ensures
            date@ == utc_day(self@.seconds),
    {
        proof {
            use_type_invariant(self);
        }
        match Date::from_days((floor_div(self.seconds, DAY_SECONDS) + EPOCH_DAY) as i32) {
            Some(date) => date,
            None => Date::first_of(1970, 1),
        }
    }
}

/// Division that rounds down.
pub fn floor_div(n: i64, divisor: i64) -> (quotient: i64)
    requires
        divisor > 1,
    ensures
        quotient == n as int / divisor as int,
        i64::MIN / 2 <= quotient <= i64::MAX / 2,
{
    proof {
        lemma_division(n as int, divisor as int);
    }
    if n >= 0 {
        n / divisor
    } else {
        -((-(n + 1)) / divisor) - 1
    }
}

/// The remainder that belongs to `floor_div`.
pub fn floor_mod(n: i64, divisor: i64) -> (remainder: i64)
    requires
        divisor > 1,
    ensures
        remainder == n as int % divisor as int,
        0 <= remainder < divisor,
{
    let quotient: i64 = floor_div(n, divisor);
    proof {
        vstd::arithmetic::div_mod::lemma_fundamental_div_mod(n as int, divisor as int);
        vstd::arithmetic::div_mod::lemma_mod_bound(n as int, divisor as int);
        vstd::arithmetic::mul::lemma_mul_is_commutative(divisor as int, quotient as int);
    }
    (n as i128 - quotient as i128 * divisor as i128) as i64
}

/// Division of a negative number, in terms of a division of a number that is
/// not negative.
proof fn lemma_division(n: int, divisor: int)
    requires
        divisor > 1,
        i64::MIN <= n <= i64::MAX,
    ensures
        n < 0 ==> n / divisor == -((-(n + 1)) / divisor) - 1,
        i64::MIN / 2 <= n / divisor <= i64::MAX / 2,
        n >= 0 ==> n / divisor <= n,
{
    let m = -(n + 1);
    vstd::arithmetic::div_mod::lemma_fundamental_div_mod(n, divisor);
    vstd::arithmetic::div_mod::lemma_fundamental_div_mod(m, divisor);
    vstd::arithmetic::div_mod::lemma_mod_bound(n, divisor);
    vstd::arithmetic::div_mod::lemma_mod_bound(m, divisor);
    let q = n / divisor;
    let p = m / divisor;
    let r = n % divisor;
    let s = m % divisor;
    assert(n == divisor * q + r);
    assert(m == divisor * p + s);
    assert(divisor * (q + p) == -1 - r - s) by (nonlinear_arith)
        requires
            n == divisor * q + r,
            -(n + 1) == divisor * p + s,
    ;
    assert(q + p == -1) by (nonlinear_arith)
        requires
            divisor * (q + p) == -1 - r - s,
            0 <= r < divisor,
            0 <= s < divisor,
            divisor > 1,
    ;
    assert(n >= 0 ==> 0 <= q <= n / 2) by (nonlinear_arith)
        requires
            n == divisor * q + r,
            0 <= r < divisor,
            divisor > 1,
    ;
    assert(m >= 0 ==> 0 <= p <= m / 2) by (nonlinear_arith)
        requires
            m == divisor * p + s,
            0 <= s < divisor,
            divisor > 1,
    ;
}

// ---------------------------------------------------------------- zones

/// The name is that of a zone of the compiled-in IANA database.
pub uninterp spec fn zone_known(name: Seq<char>) -> bool;

/// The offset of a zone from UTC at an instant: the seconds to add to UTC to
/// get local time.
pub uninterp spec fn utc_offset(name: Seq<char>, seconds: int) -> int;

/// Calls `str::parse` for `chrono_tz::Tz`, a lookup in a compiled-in table,
/// and says whether it found the zone. The table holds the default zone.
#[verifier::external_body]
fn tz_is_known(name: &str) -> (known: bool)
    ensures
        known == zone_known(name@),
        name@ == DEFAULT_TIMEZONE@ ==> known,
{
    name.parse::<chrono_tz::Tz>().is_ok()
}

/// Calls `TimeZone::offset_from_utc_datetime` of `chrono_tz::Tz`, which
/// searches the zone's compiled-in transition table, and reads the offset's
/// `FixedOffset::local_minus_utc`, which is less than a day either way.
#[verifier::external_body]
fn tz_offset(name: &str, seconds: i64) -> (offset: i32)
    requires
        zone_known(name@),
        in_calendar(utc_day(seconds as int)),
    ensures
        offset == utc_offset(name@, seconds as int),
        -86400 < offset < 86400,
{
    let zone: chrono_tz::Tz = name.parse().unwrap();
    let utc = chrono::DateTime::from_timestamp(seconds, 0).unwrap().naive_utc();
    zone.offset_from_utc_datetime(&utc).fix().local_minus_utc()
}

/// An IANA time zone. Its view is its name.
#[derive(PartialEq, Eq, Debug)]
pub struct Timezone {
    name: String,
}

impl View for Timezone {
    type V = Seq<char>;

    closed spec fn view(&self) -> Seq<char> {
        self.name@
    }
}

/// Local seconds since the epoch: what the zone's clock shows, counted as if
/// it were UTC.
pub open spec fn local_seconds(zone: Seq<char>, moment: Moment) -> int {
    moment.seconds + utc_offset(zone, moment.seconds)
}

/// The day that an instant falls on in a zone.
pub open spec fn local_day(zone: Seq<char>, moment: Moment) -> int {
    utc_day(local_seconds(zone, moment))
}

/// The hour that a zone's clock shows.
pub open spec fn local_hour(zone: Seq<char>, moment: Moment) -> int {
    second_of_day(local_seconds(zone, moment)) / 3600
}

/// The instant lies neither in the first nor in the last day of the calendar,
/// so that it has a date in every zone.
pub open spec fn has_local_date(moment: Moment) -> bool {
    MIN_DAY < utc_day(moment.seconds) < MAX_DAY
}

impl Clone for Timezone {
    fn clone(&self) -> (zone: Timezone)
        ensures
            zone@ == self@,
    {
        proof {
            use_type_invariant(self);
        }
        Timezone { name: copy(self.name.as_str()) }
    }
}

impl Timezone {
    /// Every time zone is one of the database.
    #[verifier::type_invariant]
    pub open spec fn wf(self) -> bool {
        zone_known(self@)
    }

    /// The zone with a name, if the database has it.
    pub fn parse(name: &str) -> (zone: Option<Timezone>)
        ensures
            match zone {
                Some(zone) => zone_known(name@) && zone@ == name@,
                None => !zone_known(name@),
            },
            name@ == DEFAULT_TIMEZONE@ ==> zone is Some,
    {
        if tz_is_known(name) {
            Some(Timezone { name: copy(name) })
        } else {
            None
        }
    }

    /// The fallback zone.
    pub fn fallback() -> (zone: Timezone)
        ensures
            zone@ == DEFAULT_TIMEZONE@,
    {
        let known = tz_is_known(DEFAULT_TIMEZONE);
        Timezone { name: copy(DEFAULT_TIMEZONE) }
    }

    /// The name of the zone.
    pub fn name(&self) -> (name: &str)
        ensures
            name@ == self@,
    {
        self.name.as_str()
    }

    /// The local day number and the local hour of an instant. The day is at
    /// most one day off the UTC day.
    pub fn local_parts(&self, instant: &Instant) -> (parts: (i64, u32))
        ensures
            parts.0 == local_day(self@, instant@),
            parts.1 == local_hour(self@, instant@),
            parts.1 < 24,
            utc_day(instant@.seconds) - 1 <= parts.0 <= utc_day(instant@.seconds) + 1,
            in_calendar(utc_day(instant@.seconds)),
    {
        proof {
            use_type_invariant(self);
            use_type_invariant(instant);
        }
        let seconds: i64 = instant.seconds();
        let offset: i32 = tz_offset(self.name.as_str(), seconds);
        let local: i64 = seconds + offset as i64;
        let day: i64 = floor_div(local, DAY_SECONDS) + EPOCH_DAY;
        let hour: i64 = floor_mod(local, DAY_SECONDS) / 3600;
        (day, hour as u32)
    }
}

/// A zone's local date is never more than a day off the UTC date, whatever the
/// zone's offset (less than a day either way) is.
pub proof fn law_local_day_is_near_utc_day(zone: Seq<char>, moment: Moment)
    requires
        -86400 < utc_offset(zone, moment.seconds) < 86400,
    ensures
        utc_day(moment.seconds) - 1 <= local_day(zone, moment) <= utc_day(moment.seconds) + 1,
        0 <= local_hour(zone, moment) < 24,
{
}

} // verus!
