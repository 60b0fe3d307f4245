//! Points in time, and the calendar work that `chrono` does on them.

use chrono::TimeZone;
use vstd::prelude::*;

verus! {

/// The first second that a calendar date can be given for.
pub const MIN_SECS: i64 = -8_334_601_228_800;

/// The last second that a calendar date can be given for.
pub const MAX_SECS: i64 = 8_210_266_876_799;

/// The day, counted from 1970-01-01, that holds `MIN_SECS`.
pub const MIN_DAY: i64 = -96_465_292;

/// The day, counted from 1970-01-01, that holds `MAX_SECS`.
pub const MAX_DAY: i64 = 95_026_236;

/// The longest span, in seconds, that `chrono` can hold.
pub const MAX_SPAN_SECS: u64 = 9_223_372_036_854_775;

/// Year, month, day, hour and minute.
pub const MINUTE_PATTERN: &'static str = "%Y-%m-%d %H:%M";

/// Year, month and day, then the time of day without separators.
pub const EXPORT_PATTERN: &'static str = "%Y-%m-%d-%H%M%S";

/// Year, month and day.
pub const DATE_PATTERN: &'static str = "%Y-%m-%d";

/// Date and time of day without separators.
pub const TRASH_PATTERN: &'static str = "%Y%m%dT%H%M%S";

/// A point in time together with the offset from UTC at which it is shown.
#[derive(Clone, Copy, Debug, PartialEq, Eq, Structural)]
pub struct Timestamp {
    /// Whole seconds since 1970-01-01 00:00 UTC.
    pub secs: i64,
    /// Nanoseconds after `secs`; a billion or more inside a leap second.
    pub nanos: u32,
    /// Seconds that local time is ahead of UTC.
    pub offset: i32,
}

impl Timestamp {
    /// Whether this is a point in time of the calendar.
    pub open spec fn wf(self) -> bool {
        &&& MIN_SECS <= self.secs <= MAX_SECS
        &&& self.nanos < 2_000_000_000
        &&& self.nanos >= 1_000_000_000 ==> self.secs % 60 == 59
        &&& -86_400 < self.offset < 86_400
    }

    /// Whether this is a point in time of the calendar.
    pub fn is_in_calendar(&self) -> (r: bool)
        ensures
            r == self.wf(),
    {
        let known: bool = MIN_SECS <= self.secs && self.secs <= MAX_SECS && self.nanos
            < 2_000_000_000 && -86_400 < self.offset && self.offset < 86_400;
        if self.nanos < 1_000_000_000 || !known {
            return known;
        }
        // Inside a leap second, which ends a minute.
        let second: i64 = self.secs % 60;
        second == 59 || second == -1
    }

    /// The position of this point on the time line; later is larger.
    pub open spec fn instant(self) -> int {
        self.secs * 2_000_000_000 + self.nanos
    }

    /// The position of this point on the time line; later is larger.
    pub fn rank(&self) -> (r: i128)
        requires
            self.wf(),
        ensures
            r == self.instant(),
    {
        self.secs as i128 * 2_000_000_000 + self.nanos as i128
    }

    /// Milliseconds since 1970-01-01 00:00 UTC.
    pub open spec fn spec_millis(self) -> int {
        self.secs * 1000 + self.nanos / 1_000_000
    }

    /// Milliseconds since 1970-01-01 00:00 UTC.
    pub fn timestamp_millis(&self) -> (r: i64)
        requires
            self.wf(),
        ensures
            r == self.spec_millis(),
    {
        self.secs * 1000 + (self.nanos / 1_000_000) as i64
    }

    /// Whether this point lies after `other`.
    pub fn is_after(&self, other: &Timestamp) -> (r: bool)
        requires
            self.wf(),
            other.wf(),
        ensures
            r == (self.instant() > other.instant()),
    {
        self.rank() > other.rank()
    }
}

/// Order by `instant` is order by seconds, then by nanoseconds.
pub proof fn law_instant_orders_by_seconds_then_nanos(a: Timestamp, b: Timestamp)
    requires
        a.wf(),
        b.wf(),
    ensures
        a.instant() < b.instant() <==> (a.secs < b.secs || a.secs == b.secs && a.nanos < b.nanos),
        a.instant() == b.instant() <==> a.secs == b.secs && a.nanos == b.nanos,
{
}

/// What an RFC 3339 date and time says, where it is one.
pub uninterp spec fn rfc3339_reading(text: Seq<char>) -> Option<Timestamp>;

/// `chrono::DateTime::parse_from_rfc3339`: the point in time that `text` writes, with the
/// offset written in it, or nothing where `text` is not in that form. The result depends on
/// the text alone and lies in the calendar.
#[verifier::external_body]
pub(crate) fn parse_rfc3339(text: &str) -> (r: Option<Timestamp>)
    ensures
        r == rfc3339_reading(text@),
        r matches Some(t) ==> t.wf(),
{
    chrono::DateTime::parse_from_rfc3339(text).ok().map(|t| Timestamp {
        secs: t.timestamp(),
        nanos: t.timestamp_subsec_nanos(),
        offset: t.offset().local_minus_utc(),
    })
}

/// Whether RFC 3339 can write `t` without loss: an offset of whole minutes, and a local date
/// in the years 0 to 9999.
pub open spec fn rfc3339_exact(t: Timestamp) -> bool {
    &&& t.offset as int % 60 == 0
    &&& -62_167_219_200 <= t.secs + t.offset <= 253_402_300_799
}

/// The RFC 3339 text for a point in time given by its seconds, nanoseconds and offset.
pub uninterp spec fn rfc3339_text(secs: int, nanos: int, offset: int) -> Seq<char>;

/// `chrono::DateTime::to_rfc3339`: `t` as RFC 3339 text. Where the text can hold `t` without
/// loss, reading it gives `t` back.
#[verifier::external_body]
pub(crate) fn to_rfc3339(t: Timestamp) -> (r: String)
    requires
        t.wf(),
    ensures
        r@ == rfc3339_text(t.secs as int, t.nanos as int, t.offset as int),
        rfc3339_exact(t) ==> rfc3339_reading(r@) == Some(t),
{
    let utc = chrono::DateTime::from_timestamp(t.secs, t.nanos).unwrap();
    utc.with_timezone(&chrono::FixedOffset::east_opt(t.offset).unwrap()).to_rfc3339()
}

/// Nanoseconds from `earlier` to `later`, where the second a leap second adds counts if the
/// time of day passes it.
pub open spec fn nanos_between(later: Timestamp, earlier: Timestamp) -> int {
    let leap: int = if later.secs as int % 86_400 > earlier.secs as int % 86_400 && earlier.nanos
        >= 1_000_000_000 {
        1
    } else if (later.secs as int % 86_400) < earlier.secs as int % 86_400 && later.nanos
        >= 1_000_000_000 {
        -1
    } else {
        0
    };
    (later.secs - earlier.secs + leap) * 1_000_000_000 + later.nanos - earlier.nanos
}

/// Whole minutes in a span of nanoseconds, cut off towards zero.
pub open spec fn whole_minutes(nanos: int) -> int {
    if nanos >= 0 {
        nanos / 60_000_000_000
    } else {
        -((-nanos) / 60_000_000_000)
    }
}

/// `chrono::DateTime::signed_duration_since`: the span from `earlier` to `later`, negative where
/// `earlier` is the later one, as whole seconds cut off towards zero and the nanoseconds that are
/// left.
#[verifier::external_body]
pub(crate) fn span_between(later: Timestamp, earlier: Timestamp) -> (r: (i64, i32))
    requires
        later.wf(),
        earlier.wf(),
    ensures
        r.0 * 1_000_000_000 + r.1 == nanos_between(later, earlier),
        -1_000_000_000 < r.1 < 1_000_000_000,
        r.0 > 0 ==> r.1 >= 0,
        r.0 < 0 ==> r.1 <= 0,
{
    let a = chrono::DateTime::from_timestamp(later.secs, later.nanos).unwrap();
    let b = chrono::DateTime::from_timestamp(earlier.secs, earlier.nanos).unwrap();
    let span = a.signed_duration_since(b);
    (span.num_seconds(), span.subsec_nanos())
}

/// The nanoseconds from `earlier` to `later`.
pub(crate) fn nanoseconds_between(later: Timestamp, earlier: Timestamp) -> (r: i128)
    requires
        later.wf(),
        earlier.wf(),
    ensures
        r == nanos_between(later, earlier),
{
    let (secs, nanos): (i64, i32) = span_between(later, earlier);
    secs as i128 * 1_000_000_000 + nanos as i128
}

/// The whole minutes from `earlier` to `later`, cut off towards zero.
pub(crate) fn minutes_between(later: Timestamp, earlier: Timestamp) -> (r: i64)
    requires
        later.wf(),
        earlier.wf(),
    ensures
        r == whole_minutes(nanos_between(later, earlier)),
{
    let nanos: i128 = nanoseconds_between(later, earlier);
    if nanos >= 0 {
        (nanos / 60_000_000_000) as i64
    } else {
        let minutes: i128 = (-nanos) / 60_000_000_000;
        -(minutes as i64)
    }
}

/// `chrono::DateTime::with_timezone` for `chrono::Local`: the same point in time, shown at the
/// offset of the machine's time zone. Which offset that is depends on the machine and is left
/// open.
#[verifier::external_body]
pub(crate) fn to_local(t: Timestamp) -> (r: Timestamp)
    requires
        t.wf(),
    ensures
        r.wf(),
        r.secs == t.secs,
        r.nanos == t.nanos,
{
    let utc = chrono::DateTime::from_timestamp(t.secs, t.nanos).unwrap();
    let local = utc.with_timezone(&chrono::Local);
    Timestamp {
        secs: local.timestamp(),
        nanos: local.timestamp_subsec_nanos(),
        offset: local.offset().local_minus_utc(),
    }
}

/// `chrono::Local::now`: the time of the machine's clock, in its time zone. Nothing but that
/// it lies in the calendar, not before 1970, is known of it.
#[verifier::external_body]
pub(crate) fn local_now() -> (r: Timestamp)
    ensures
        r.wf(),
        r.secs >= 0,
{
    let now = chrono::Local::now();
    Timestamp {
        secs: now.timestamp(),
        nanos: now.timestamp_subsec_nanos(),
        offset: now.offset().local_minus_utc(),
    }
}

/// The present time, in the machine's time zone.
pub fn now() -> (r: Timestamp)
    ensures
        r.wf(),
        r.secs >= 0,
{
    local_now()
}

/// The point in time at a number of seconds and nanoseconds since 1970, where it lies in the
/// calendar.
pub fn at_unix_time(secs: i64, nanos: u32) -> (r: Option<Timestamp>)
    ensures
        r is Some <==> MIN_SECS <= secs <= MAX_SECS && nanos < 1_000_000_000,
        r matches Some(t) ==> t.wf() && t == (Timestamp { secs, nanos, offset: 0 }),
{
    if MIN_SECS <= secs && secs <= MAX_SECS && nanos < 1_000_000_000 {
        Some(Timestamp { secs, nanos, offset: 0 })
    } else {
        None
    }
}

/// `chrono::TimeDelta::from_std`: a span of whole seconds, or the text of the error where it is
/// longer than `chrono` can hold.
#[verifier::external_body]
pub(crate) fn span_of_seconds(secs: u64) -> (r: Result<u64, String>)
    ensures
        match r {
            Ok(span) => span == secs && secs <= MAX_SPAN_SECS,
            Err(e) => secs > MAX_SPAN_SECS && e@
                == "Source duration value is out of range for the target type"@,
        },
{
    match chrono::TimeDelta::from_std(std::time::Duration::from_secs(secs)) {
        Ok(span) => Ok(span.num_seconds() as u64),
        Err(e) => Err(e.to_string()),
    }
}

/// The point `span` seconds before `t`, as seconds and nanoseconds. Going back from inside a
/// leap second starts at the second after it.
pub open spec fn moved_back(t: Timestamp, span: nat) -> (int, int) {
    if t.nanos >= 1_000_000_000 && span > 0 {
        (t.secs + 1 - span, t.nanos - 1_000_000_000)
    } else {
        (t.secs - span, t.nanos as int)
    }
}

/// `chrono::DateTime::checked_sub_signed` on a time of `chrono::Local`: the point `span`
/// seconds before `t`, or nothing where that is before the calendar begins. The offset of the
/// result depends on the machine's time zone and is left open.
#[verifier::external_body]
pub(crate) fn checked_sub_seconds(t: Timestamp, span: u64) -> (r: Option<Timestamp>)
    requires
        t.wf(),
        span <= MAX_SPAN_SECS,
    ensures
        r is Some <==> moved_back(t, span as nat).0 >= MIN_SECS,
        r matches Some(e) ==> e.wf() && (e.secs as int, e.nanos as int) == moved_back(
            t,
            span as nat,
        ),
{
    let utc = chrono::DateTime::from_timestamp(t.secs, t.nanos).unwrap();
    let delta = chrono::TimeDelta::try_seconds(span as i64).unwrap();
    utc.with_timezone(&chrono::Local).checked_sub_signed(delta).map(|e| Timestamp {
        secs: e.timestamp(),
        nanos: e.timestamp_subsec_nanos(),
        offset: e.offset().local_minus_utc(),
    })
}

/// What a date written by `pattern` says: its day counted from 1970-01-01, or why it is none.
pub uninterp spec fn date_reading(text: Seq<char>, pattern: Seq<char>) -> Result<int, Seq<char>>;

/// `chrono::NaiveDate::parse_from_str`: the day that `text`, written by `pattern`, names, counted
/// from 1970-01-01, or the text of the error. The result depends on the two alone and lies in the
/// calendar.
#[verifier::external_body]
pub(crate) fn parse_date(text: &str, pattern: &str) -> (r: Result<i64, String>)
    requires
        pattern@ == DATE_PATTERN@,
    ensures
        match r {
            Ok(day) => date_reading(text@, pattern@) == Ok::<int, Seq<char>>(day as int)
                && MIN_DAY <= day <= MAX_DAY,
            Err(e) => date_reading(text@, pattern@) == Err::<int, Seq<char>>(e@),
        },
{
    match chrono::NaiveDate::parse_from_str(text, pattern) {
        Ok(date) => Ok(date.to_epoch_days() as i64),
        Err(e) => Err(e.to_string()),
    }
}

/// `chrono::TimeZone::from_local_datetime` of `chrono::Local`, for a day and a time of day: the
/// one point in time that the machine's time zone gives them, or nothing where it gives none or
/// two. Which of these holds depends on the machine and is left open.
#[verifier::external_body]
pub(crate) fn local_time(day: i64, hour: u32, minute: u32, second: u32) -> (r: Option<Timestamp>)
    requires
        MIN_DAY <= day <= MAX_DAY,
        hour < 24,
        minute < 60,
        second < 60,
    ensures
        r matches Some(t) ==> t.wf() && t.nanos == 0 && t.secs + t.offset == day * 86_400 + hour
            * 3600 + minute * 60 + second,
{
    let date = chrono::NaiveDate::from_epoch_days(day as i32).unwrap();
    let local = date.and_hms_opt(hour, minute, second).unwrap();
    chrono::Local.from_local_datetime(&local).single().map(|t| Timestamp {
        secs: t.timestamp(),
        nanos: t.timestamp_subsec_nanos(),
        offset: t.offset().local_minus_utc(),
    })
}

/// `chrono::TimeZone::timestamp_millis_opt` of `chrono::Utc`: the point in time `millis`
/// milliseconds after 1970-01-01 00:00 UTC, or nothing where it lies outside the calendar.
#[verifier::external_body]
pub(crate) fn timestamp_from_millis(millis: i64) -> (r: Option<Timestamp>)
    ensures
        r is Some <==> MIN_SECS <= millis as int / 1000 <= MAX_SECS,
        r matches Some(t) ==> t.wf() && t.secs == millis as int / 1000 && t.nanos == (millis as int
            % 1000) * 1_000_000 && t.offset == 0,
{
    chrono::Utc.timestamp_millis_opt(millis).single().map(|t| Timestamp {
        secs: t.timestamp(),
        nanos: t.timestamp_subsec_nanos(),
        offset: 0,
    })
}

/// The patterns that times are written by.
pub open spec fn is_time_pattern(pattern: Seq<char>) -> bool {
    ||| pattern == MINUTE_PATTERN@
    ||| pattern == EXPORT_PATTERN@
    ||| pattern == TRASH_PATTERN@
}

/// What `pattern` writes for a point in time given by its seconds, nanoseconds and offset.
pub uninterp spec fn strftime(secs: int, nanos: int, offset: int, pattern: Seq<char>) -> Seq<char>;

/// `chrono::DateTime::format`: `t`, at its own offset, written by `pattern`. The result
/// depends on these alone.
#[verifier::external_body]
pub(crate) fn format_time(t: Timestamp, pattern: &str) -> (r: String)
    requires
        t.wf(),
        is_time_pattern(pattern@),
    ensures
        r@ == strftime(t.secs as int, t.nanos as int, t.offset as int, pattern@),
{
    let utc = chrono::DateTime::from_timestamp(t.secs, t.nanos).unwrap();
    utc.with_timezone(&chrono::FixedOffset::east_opt(t.offset).unwrap()).format(pattern).to_string()
}

/// The date and the time of day of a point in time, to the minute.
pub open spec fn minute_text(t: Timestamp) -> Seq<char> {
    strftime(t.secs as int, t.nanos as int, t.offset as int, MINUTE_PATTERN@)
}

/// The date and the time of day of a point in time, to the minute.
pub(crate) fn format_minute(t: Timestamp) -> (r: String)
    requires
        t.wf(),
    ensures
        r@ == minute_text(t),
{
    format_time(t, MINUTE_PATTERN)
}

/// Going back by a span and the span itself add up to the time that one started from, also from
/// inside a leap second, which belongs to the second after it.
pub proof fn law_going_back_takes_the_span(t: Timestamp, span: nat)
    requires
        t.wf(),
    ensures
        ({
            let (secs, nanos) = moved_back(t, span);
            &&& (secs + span) * 1_000_000_000 + nanos == t.secs * 1_000_000_000 + t.nanos
            &&& span > 0 ==> 0 <= nanos < 1_000_000_000
            &&& span == 0 ==> secs == t.secs && nanos == t.nanos
        }),
{
}

/// A span is counted in whole minutes, cut off towards zero: the other way round it has the same
/// number of them.
pub proof fn law_whole_minutes_are_cut_off_towards_zero(nanos: int)
    ensures
        whole_minutes(-nanos) == -whole_minutes(nanos),
        nanos >= 0 ==> whole_minutes(nanos) * 60_000_000_000 <= nanos < (whole_minutes(nanos) + 1)
            * 60_000_000_000,
{
}

/// The milliseconds of a time are those that have passed in full.
pub proof fn law_milliseconds_are_whole(t: Timestamp)
    requires
        t.wf(),
    ensures
        t.spec_millis() * 1_000_000 <= t.secs * 1_000_000_000 + t.nanos < (t.spec_millis() + 1)
            * 1_000_000,
{
}

/// The times of a list are written with the date and the minute.
pub proof fn law_list_times_tell_date_and_minute(t: Timestamp)
    ensures
        minute_text(t) == strftime(
            t.secs as int,
            t.nanos as int,
            t.offset as int,
            "%Y-%m-%d %H:%M"@,
        ),
{
}

} // verus!
