//! Delays and points in time: reading a delay such as `1h`, reading a
//! timestamp in one of several notations, and the age of a timestamp.

use vstd::prelude::*;
use vstd::string::StringExecFns;
use chrono::{DateTime, Datelike, NaiveDate, NaiveDateTime, Utc};
use crate::error::{concat2, concat3, Finding, ValidationError};
use crate::text::{byte_len, char_is_numeric, count_char, count_of, int_text, is_numeric,
    leading_numeric, lemma_leading_numeric, lowercase, parse_i64, parse_i64_text, push_int,
    same_text, string_of, to_chars, to_lowercase, trim, trim_chars, trimmed};

verus! {

/// A point in time: whole seconds since 1970-01-01 00:00:00 UTC, leap
/// seconds not counted, and nanoseconds into that second. Inside a leap
/// second the nanoseconds are a thousand million or more.
#[derive(Debug, Clone, Copy, PartialEq, Eq, Structural)]
pub struct Instant {
    pub secs: i64,
    pub nanos: u32,
}

/// A length of time, in nanoseconds, of either sign.
#[derive(Debug, Clone, Copy, PartialEq, Eq, Structural)]
pub struct Duration {
    nanos: i128,
}

/// The instant that `DateTime::parse_from_rfc3339` reads from a text, as its
/// timestamp and the nanoseconds of its second, or `None` where it refuses
/// the text.
pub uninterp spec fn rfc3339_instant(text: Seq<char>) -> Option<(i64, u32)>;

/// The instant that `NaiveDateTime::parse_from_str` reads from a text in the
/// form `%Y-%m-%d %H:%M:%S`, taken as UTC, or `None` where it refuses the
/// text.
pub uninterp spec fn naive_datetime_instant(text: Seq<char>) -> Option<(i64, u32)>;

/// The day that `NaiveDate::parse_from_str` reads from a text in the form
/// `%Y-%m-%d`, as the number that `Datelike::num_days_from_ce` gives it (the
/// first of January of the year 1 is day 1), or `None` where it refuses the
/// text.
pub uninterp spec fn date_day(text: Seq<char>) -> Option<i32>;

/// The instant that the `FromStr` of `DateTime<Utc>` reads from a text, or
/// `None` where it refuses the text.
pub uninterp spec fn general_instant(text: Seq<char>) -> Option<(i64, u32)>;

/// Whether `DateTime::from_timestamp` can hold an instant that many whole
/// seconds from the epoch: whether its day is one of the calendar's, which
/// runs from the first of January of the year -262143 to the last of
/// December of the year 262142. Counted from the first of January 1970 these
/// are the days -96,465,292 and 95,026,236.
pub open spec fn representable_seconds(secs: int) -> bool {
    -96_465_292 * 86_400 <= secs < (95_026_236 + 1) * 86_400
}

/// The number that `Datelike::num_days_from_ce` gives the first of January
/// 1970.
pub open spec fn epoch_day() -> int {
    719_163
}

/// Calls `DateTime::parse_from_rfc3339` and takes the timestamp and the
/// nanoseconds of what it reads. The result depends on the text alone.
#[verifier::external_body]
fn read_rfc3339(text: &str) -> (r: Option<(i64, u32)>)
    ensures
        r == rfc3339_instant(text@),
{
    DateTime::parse_from_rfc3339(text).ok().map(|dt| (dt.timestamp(), dt.timestamp_subsec_nanos()))
}

/// Calls `NaiveDateTime::parse_from_str` with the form `%Y-%m-%d %H:%M:%S`
/// and takes what it reads as UTC. The result depends on the text alone.
#[verifier::external_body]
fn read_naive_datetime(text: &str) -> (r: Option<(i64, u32)>)
    ensures
        r == naive_datetime_instant(text@),
{
    NaiveDateTime::parse_from_str(text, "%Y-%m-%d %H:%M:%S").ok().map(
        |naive| (naive.and_utc().timestamp(), naive.and_utc().timestamp_subsec_nanos()),
    )
}

/// Calls `NaiveDate::parse_from_str` with the form `%Y-%m-%d` and takes the
/// number of the day it reads from `Datelike::num_days_from_ce`. The result
/// depends on the text alone.
#[verifier::external_body]
fn read_date(text: &str) -> (r: Option<i32>)
    ensures
        r == date_day(text@),
{
    NaiveDate::parse_from_str(text, "%Y-%m-%d").ok().map(|d| d.num_days_from_ce())
}

/// Calls the `FromStr` of `DateTime<Utc>`. The result depends on the text
/// alone.
#[verifier::external_body]
fn read_general(text: &str) -> (r: Option<(i64, u32)>)
    ensures
        r == general_instant(text@),
{
    text.parse::<DateTime<Utc>>().ok().map(|dt| (dt.timestamp(), dt.timestamp_subsec_nanos()))
}

/// Calls `DateTime::from_timestamp`. It refuses seconds whose day the
/// calendar does not have, which [`representable_seconds`] states; what it
/// accepts it gives back unchanged.
#[verifier::external_body]
fn from_epoch(secs: i64, nanos: u32) -> (r: Option<(i64, u32)>)
    requires
        nanos < 1_000_000_000,
    ensures
        r == if representable_seconds(secs as int) {
            Some((secs, nanos))
        } else {
            None
        },
{
    DateTime::from_timestamp(secs, nanos).map(|dt| (dt.timestamp(), dt.timestamp_subsec_nanos()))
}

/// Calls `Utc::now`: the time of the system clock. Nothing is known of it.
/// chrono stops the program where the system clock is set before 1970.
#[verifier::external_body]
fn clock_reading() -> (r: (i64, u32)) {
    let now = Utc::now();
    (now.timestamp(), now.timestamp_subsec_nanos())
}

/// An optional pair as an optional instant.
pub open spec fn instant_from(pair: Option<(i64, u32)>) -> Option<Instant> {
    match pair {
        Some(p) => Some(Instant { secs: p.0, nanos: p.1 }),
        None => None,
    }
}

/// Midnight UTC of the day with the number `day`, where the calendar has
/// that day.
pub open spec fn midnight_of(day: i32) -> Option<Instant> {
    let secs = (day - epoch_day()) * 86_400;
    if representable_seconds(secs) {
        Some(Instant { secs: secs as i64, nanos: 0 })
    } else {
        None
    }
}

/// Midnight UTC of the day that a text in the form `YYYY-MM-DD` names.
pub open spec fn date_instant(text: Seq<char>) -> Option<Instant> {
    match date_day(text) {
        Some(day) => midnight_of(day),
        None => None,
    }
}

/// The instant that a whole number denotes. A number whose magnitude is
/// over ten thousand million counts milliseconds from the epoch: the
/// instant lies in the second that holds them, counted downwards before the
/// epoch, with the milliseconds into that second as nanoseconds. Any other
/// number counts seconds from the epoch.
pub open spec fn epoch_instant(epoch: i64) -> Option<Instant> {
    let e = epoch as int;
    if e > 10_000_000_000 || e < -10_000_000_000 {
        if representable_seconds(e / 1000) {
            Some(Instant { secs: (e / 1000) as i64, nanos: ((e % 1000) * 1_000_000) as u32 })
        } else {
            None
        }
    } else {
        Some(Instant { secs: epoch, nanos: 0 })
    }
}

/// The instant that a text denotes. The text is trimmed; then these
/// notations are tried in order and the first that reads it decides:
/// RFC 3339; a whole number of seconds, or of milliseconds where its
/// magnitude is over ten thousand million, from the epoch;
/// `YYYY-MM-DD HH:MM:SS`, taken as UTC, for a text of at least 19 bytes with
/// a space in it; `YYYY-MM-DD`, taken as midnight UTC, for a text of 10
/// bytes with two hyphens; the general notation of `DateTime<Utc>`.
pub open spec fn timestamp_of(text: Seq<char>) -> Option<Instant> {
    let t = trimmed(text);
    if rfc3339_instant(t) is Some {
        instant_from(rfc3339_instant(t))
    } else if parse_i64_text(t) is Some && epoch_instant(parse_i64_text(t).unwrap()) is Some {
        epoch_instant(parse_i64_text(t).unwrap())
    } else if count_of(t, ' ') > 0 && byte_len(t) >= 19 && naive_datetime_instant(t) is Some {
        instant_from(naive_datetime_instant(t))
    } else if byte_len(t) == 10 && count_of(t, '-') == 2 && date_instant(t) is Some {
        date_instant(t)
    } else {
        instant_from(general_instant(t))
    }
}

/// The finding for a text that no notation reads.
pub open spec fn invalid_timestamp(text: Seq<char>) -> Finding {
    Finding::InvalidDuration(
        "Invalid timestamp: "@ + trimmed(text)
            + ". Supported formats: ISO 8601, Unix epoch (seconds/milliseconds), YYYY-MM-DD, YYYY-MM-DD HH:MM:SS"@,
    )
}

/// How many seconds one unit of a delay lasts. The unit is in lower case.
pub open spec fn unit_seconds(unit: Seq<char>) -> Option<int> {
    if unit == "s"@ || unit == "sec"@ || unit == "second"@ || unit == "seconds"@ {
        Some(1)
    } else if unit == "m"@ || unit == "min"@ || unit == "minute"@ || unit == "minutes"@ {
        Some(60)
    } else if unit == "h"@ || unit == "hr"@ || unit == "hour"@ || unit == "hours"@ {
        Some(3_600)
    } else if unit == "d"@ || unit == "day"@ || unit == "days"@ {
        Some(86_400)
    } else if unit == "w"@ || unit == "week"@ || unit == "weeks"@ {
        Some(604_800)
    } else {
        None
    }
}

/// The seconds that a delay lasts, or the finding for a text that is not a
/// delay. The text is trimmed. Its leading numeric characters are the
/// number, which must be a 64-bit integer in ASCII digits; the rest, trimmed
/// and in lower case, is the unit. A number alone counts seconds.
pub open spec fn duration_of(text: Seq<char>) -> Result<int, Finding> {
    let t = trimmed(text);
    let k = leading_numeric(t) as int;
    let number = t.take(k);
    let rest = t.skip(k);
    let unit = lowercase(trimmed(rest));
    if t.len() == 0 {
        Err(Finding::InvalidDuration("Duration string is empty"@))
    } else if parse_i64_text(number) is None {
        Err(Finding::InvalidDuration("Invalid number in duration: "@ + number))
    } else if unit_seconds(unit) is Some {
        Ok(parse_i64_text(number).unwrap() * unit_seconds(unit).unwrap())
    } else if unit.len() == 0 && k == t.len() {
        Ok(parse_i64_text(number).unwrap() as int)
    } else {
        Err(Finding::InvalidDuration("Unknown duration unit: "@ + rest))
    }
}

/// `a / b` rounded towards zero.
pub open spec fn whole(a: int, b: int) -> int
    recommends
        b > 0,
{
    if a >= 0 {
        a / b
    } else {
        -((-a) / b)
    }
}

/// How a length of time is shown: in whole days where it has at least one,
/// else in whole hours, else in whole minutes, else in whole seconds.
pub open spec fn delay_text(nanos: int) -> Seq<char> {
    let secs = whole(nanos, 1_000_000_000);
    if whole(secs, 86_400) > 0 {
        int_text(whole(secs, 86_400)) + "d"@
    } else if whole(secs, 3_600) > 0 {
        int_text(whole(secs, 3_600)) + "h"@
    } else if whole(secs, 60) > 0 {
        int_text(whole(secs, 60)) + "m"@
    } else {
        int_text(secs) + "s"@
    }
}

/// The second of its day in which a second since the epoch lies.
fn second_of_day(secs: i64) -> (r: i128)
    ensures
        r == secs as int % 86_400,
        0 <= r < 86_400,
{
    if secs >= 0 {
        (secs % 86_400) as i128
    } else {
        let y: i128 = -(secs as i128 + 1);
        let q: i128 = y / 86_400;
        let rem: i128 = y % 86_400;
        proof {
            vstd::arithmetic::div_mod::lemma_fundamental_div_mod_converse(
                secs as int,
                86_400,
                -(q + 1),
                (86_399 - rem) as int,
            );
        }
        86_399 - rem
    }
}

impl Instant {
    /// Whether `self` is later than `other`.
    pub open spec fn later_than(self, other: Instant) -> bool {
        self.secs > other.secs || (self.secs == other.secs && self.nanos > other.nanos)
    }

    /// The second of the day in which the instant lies.
    pub open spec fn second_of_day(self) -> int {
        self.secs as int % 86_400
    }

    /// The nanoseconds from `then` to `self`. Where one of the two lies
    /// inside a leap second and the other in a later second of its day,
    /// that leap second counts as a second of its own.
    pub open spec fn nanos_since(self, then: Instant) -> int {
        let leap = if self.second_of_day() > then.second_of_day() && then.nanos >= 1_000_000_000 {
            1int
        } else if self.second_of_day() < then.second_of_day() && self.nanos >= 1_000_000_000 {
            -1int
        } else {
            0int
        };
        (self.secs - then.secs + leap) * 1_000_000_000 + (self.nanos - then.nanos)
    }

    /// Whether `self` is later than `other`.
    pub fn is_later_than(&self, other: &Instant) -> (r: bool)
        ensures
            r == self.later_than(*other),
    {
        self.secs > other.secs || (self.secs == other.secs && self.nanos > other.nanos)
    }

    /// The time from `then` to `self`.
    pub fn since(&self, then: &Instant) -> (r: Duration)
        ensures
            r.nanos() == self.nanos_since(*then),
    {
        let day_a: i128 = second_of_day(self.secs);
        let day_b: i128 = second_of_day(then.secs);
        let leap: i128 = if day_a > day_b && then.nanos >= 1_000_000_000 {
            1
        } else if day_a < day_b && self.nanos >= 1_000_000_000 {
            -1
        } else {
            0
        };
        let secs: i128 = self.secs as i128 - then.secs as i128 + leap;
        Duration { nanos: secs * 1_000_000_000 + (self.nanos as i128 - then.nanos as i128) }
    }

    /// The time of the system clock.
    pub fn now() -> (r: Instant) {
        let (secs, nanos) = clock_reading();
        Instant { secs, nanos }
    }
}

impl Duration {
    #[verifier::type_invariant]
    spec fn bounded(self) -> bool {
        -10_000_000_000_000_000_000_000_000_000_000_000 <= self.nanos
            <= 10_000_000_000_000_000_000_000_000_000_000_000
    }

    /// The length in nanoseconds.
    pub closed spec fn nanos(self) -> int {
        self.nanos as int
    }

    /// A length of `n` nanoseconds.
    pub fn nanoseconds(n: i64) -> (r: Duration)
        ensures
            r.nanos() == n,
    {
        Duration { nanos: n as i128 }
    }

    /// A length of `n` seconds.
    pub fn seconds(n: i64) -> (r: Duration)
        ensures
            r.nanos() == n * 1_000_000_000,
    {
        Duration { nanos: n as i128 * 1_000_000_000 }
    }

    /// A length of `n` minutes.
    pub fn minutes(n: i64) -> (r: Duration)
        ensures
            r.nanos() == n * 60_000_000_000,
    {
        Duration { nanos: n as i128 * 60_000_000_000 }
    }

    /// A length of `n` hours.
    pub fn hours(n: i64) -> (r: Duration)
        ensures
            r.nanos() == n * 3_600_000_000_000,
    {
        Duration { nanos: n as i128 * 3_600_000_000_000 }
    }

    /// A length of `n` days.
    pub fn days(n: i64) -> (r: Duration)
        ensures
            r.nanos() == n * 86_400_000_000_000,
    {
        Duration { nanos: n as i128 * 86_400_000_000_000 }
    }

    /// A length of `n` weeks.
    pub fn weeks(n: i64) -> (r: Duration)
        ensures
            r.nanos() == n * 604_800_000_000_000,
    {
        Duration { nanos: n as i128 * 604_800_000_000_000 }
    }

    /// Whether `self` is longer than `other`.
    pub fn longer_than(&self, other: &Duration) -> (r: bool)
        ensures
            r == (self.nanos() > other.nanos()),
    {
        self.nanos > other.nanos
    }
}

/// The instant that a number of seconds or milliseconds since the epoch
/// denotes.
pub fn instant_of_epoch(epoch: i64) -> (r: Option<Instant>)
    ensures
        r == epoch_instant(epoch),
{
    let pair = if epoch > 10_000_000_000 {
        let ms: i64 = epoch % 1000;
        from_epoch(epoch / 1000, (ms * 1_000_000) as u32)
    } else if epoch < -10_000_000_000 {
        let back: i64 = -(epoch + 1);
        let ms: i64 = 999 - back % 1000;
        from_epoch(-(back / 1000) - 1, (ms * 1_000_000) as u32)
    } else {
        from_epoch(epoch, 0)
    };
    match pair {
        Some((secs, nanos)) => Some(Instant { secs, nanos }),
        None => None,
    }
}

/// Midnight UTC of the day with the number `day`, where the calendar has
/// that day.
pub fn midnight_of_day(day: i32) -> (r: Option<Instant>)
    ensures
        r == midnight_of(day),
{
    match from_epoch((day as i64 - 719_163) * 86_400, 0) {
        Some((secs, nanos)) => Some(Instant { secs, nanos }),
        None => None,
    }
}

/// Reads a timestamp in one of the notations of [`timestamp_of`].
pub fn parse_timestamp(ts_str: &str) -> (r: Result<Instant, ValidationError>)
    ensures
        match r {
            Ok(t) => timestamp_of(ts_str@) == Some(t),
            Err(e) => timestamp_of(ts_str@) is None && e@ == invalid_timestamp(ts_str@),
        },
{
    let kept = trim(ts_str);
    let ts = kept.as_str();
    match read_rfc3339(ts) {
        Some((secs, nanos)) => {
            return Ok(Instant { secs, nanos });
        },
        None => {},
    }
    match parse_i64(ts) {
        Some(epoch) => {
            match instant_of_epoch(epoch) {
                Some(t) => {
                    return Ok(t);
                },
                None => {},
            }
        },
        None => {},
    }
    let chars = to_chars(ts);
    let bytes = ts.as_bytes().len();
    if count_char(&chars, ' ') > 0 && bytes >= 19 {
        match read_naive_datetime(ts) {
            Some((secs, nanos)) => {
                return Ok(Instant { secs, nanos });
            },
            None => {},
        }
    }
    if bytes == 10 && count_char(&chars, '-') == 2 {
        match read_date(ts) {
            Some(day) => match midnight_of_day(day) {
                Some(t) => {
                    return Ok(t);
                },
                None => {},
            },
            None => {},
        }
    }
    match read_general(ts) {
        Some((secs, nanos)) => Ok(Instant { secs, nanos }),
        None => Err(
            ValidationError::InvalidDuration(
                concat3(
                    "Invalid timestamp: ",
                    ts,
                    ". Supported formats: ISO 8601, Unix epoch (seconds/milliseconds), YYYY-MM-DD, YYYY-MM-DD HH:MM:SS",
                ),
            ),
        ),
    }
}

/// How many seconds one unit of a delay lasts. The unit is in lower case.
pub fn seconds_per_unit(unit: &str) -> (r: Option<i64>)
    ensures
        match r {
            Some(f) => unit_seconds(unit@) == Some(f as int) && 1 <= f <= 604_800,
            None => unit_seconds(unit@) is None,
        },
{
    if same_text(unit, "s") || same_text(unit, "sec") || same_text(unit, "second") || same_text(
        unit,
        "seconds",
    ) {
        Some(1)
    } else if same_text(unit, "m") || same_text(unit, "min") || same_text(unit, "minute")
        || same_text(unit, "minutes") {
        Some(60)
    } else if same_text(unit, "h") || same_text(unit, "hr") || same_text(unit, "hour") || same_text(
        unit,
        "hours",
    ) {
        Some(3_600)
    } else if same_text(unit, "d") || same_text(unit, "day") || same_text(unit, "days") {
        Some(86_400)
    } else if same_text(unit, "w") || same_text(unit, "week") || same_text(unit, "weeks") {
        Some(604_800)
    } else {
        None
    }
}

/// Reads a delay such as `1h`, `30m`, `2days` or `90`.
pub fn parse_duration(duration_str: &str) -> (r: Result<Duration, ValidationError>)
    ensures
        match r {
            Ok(d) => duration_of(duration_str@) is Ok && d.nanos() == duration_of(
                duration_str@,
            )->Ok_0 * 1_000_000_000,
            Err(e) => duration_of(duration_str@) == Err::<int, Finding>(e@),
        },
{
    let all = to_chars(duration_str);
    let t = trim_chars(&all);
    let n = t.len();
    if n == 0 {
        return Err(ValidationError::InvalidDuration("Duration string is empty".to_owned()));
    }
    let mut k: usize = 0;
    while k < n && char_is_numeric(t[k])
        invariant
            k <= n == t.len(),
            forall|i: int| 0 <= i < k ==> is_numeric(#[trigger] t@[i]),
        decreases n - k,
    {
        k += 1;
    }
    proof {
        lemma_leading_numeric(t@, k as int);
    }
    let number = string_of(&t, 0, k);
    let rest = string_of(&t, k, n);
    let value: i64 = match parse_i64(number.as_str()) {
        Some(v) => v,
        None => {
            return Err(
                ValidationError::InvalidDuration(
                    concat2("Invalid number in duration: ", number.as_str()),
                ),
            );
        },
    };
    let unit = to_lowercase(trim(rest.as_str()).as_str());
    match seconds_per_unit(unit.as_str()) {
        Some(f) => {
            assert(-9223372036854775808 * 604_800 <= value * f <= 9223372036854775807 * 604_800)
                by (nonlinear_arith)
                requires
                    1 <= f <= 604_800,
                    -9223372036854775808 <= value <= 9223372036854775807,
            ;
            let secs: i128 = value as i128 * f as i128;
            Ok(Duration { nanos: secs * 1_000_000_000 })
        },
        None => {
            if unit.as_str().is_empty() && k == n {
                Ok(Duration::seconds(value))
            } else {
                Err(
                    ValidationError::InvalidDuration(
                        concat2("Unknown duration unit: ", rest.as_str()),
                    ),
                )
            }
        },
    }
}

/// Shows a length of time in its largest whole unit: days, hours, minutes
/// or seconds.
pub fn format_duration(duration: Duration) -> (r: String)
    ensures
        r@ == delay_text(duration.nanos()),
{
    proof {
        use_type_invariant(&duration);
    }
    let mut s = String::new();
    if duration.nanos >= 0 {
        let secs: i128 = duration.nanos / 1_000_000_000;
        if secs / 86_400 > 0 {
            push_int(&mut s, secs / 86_400);
            s.append("d");
        } else if secs / 3_600 > 0 {
            push_int(&mut s, secs / 3_600);
            s.append("h");
        } else if secs / 60 > 0 {
            push_int(&mut s, secs / 60);
            s.append("m");
        } else {
            push_int(&mut s, secs);
            s.append("s");
        }
    } else {
        let secs: i128 = -((-duration.nanos) / 1_000_000_000);
        push_int(&mut s, secs);
        s.append("s");
    }
    s
}

/// The unit in which a source counts time from the epoch.
#[derive(Debug, Clone, Copy, PartialEq, Eq, Structural)]
pub enum TickUnit {
    Second,
    Millisecond,
    Microsecond,
    Nanosecond,
}

/// The instant that lies `v` ticks from the epoch, where `per` ticks make a
/// second and one tick lasts `nanos_per_tick` nanoseconds. A count from the
/// epoch on denotes its whole seconds and the ticks beyond them as
/// nanoseconds; a count before the epoch denotes an instant only where it is
/// a whole number of seconds. No instant is denoted where the calendar does
/// not have the day.
#[verifier::inline]
pub open spec fn instant_of_count(v: int, per: int, nanos_per_tick: int) -> Option<Instant> {
    if v >= 0 {
        if representable_seconds(v / per) {
            Some(Instant { secs: (v / per) as i64, nanos: ((v % per) * nanos_per_tick) as u32 })
        } else {
            None
        }
    } else if (-v) % per != 0 {
        None
    } else if representable_seconds(-((-v) / per)) {
        Some(Instant { secs: (-((-v) / per)) as i64, nanos: 0 })
    } else {
        None
    }
}

/// The instant that lies `value` ticks of `unit` from the epoch.
pub open spec fn instant_of_ticks_at(value: i64, unit: TickUnit) -> Option<Instant> {
    match unit {
        TickUnit::Second => instant_of_count(value as int, 1, 1_000_000_000),
        TickUnit::Millisecond => instant_of_count(value as int, 1_000, 1_000_000),
        TickUnit::Microsecond => instant_of_count(value as int, 1_000_000, 1_000),
        TickUnit::Nanosecond => instant_of_count(value as int, 1_000_000_000, 1),
    }
}

/// The instant that lies `value` ticks of `unit` from the epoch.
pub fn instant_of_ticks(value: i64, unit: TickUnit) -> (r: Option<Instant>)
    ensures
        r == instant_of_ticks_at(value, unit),
{
    let back: i128 = -(value as i128);
    let pair = match unit {
        TickUnit::Second => from_epoch(value, 0),
        TickUnit::Millisecond => {
            if value >= 0 {
                from_epoch(value / 1_000, ((value % 1_000) * 1_000_000) as u32)
            } else if back % 1_000 != 0 {
                None
            } else {
                from_epoch((-(back / 1_000)) as i64, 0)
            }
        },
        TickUnit::Microsecond => {
            if value >= 0 {
                from_epoch(value / 1_000_000, ((value % 1_000_000) * 1_000) as u32)
            } else if back % 1_000_000 != 0 {
                None
            } else {
                from_epoch((-(back / 1_000_000)) as i64, 0)
            }
        },
        TickUnit::Nanosecond => {
            if value >= 0 {
                from_epoch(value / 1_000_000_000, (value % 1_000_000_000) as u32)
            } else if back % 1_000_000_000 != 0 {
                None
            } else {
                from_epoch((-(back / 1_000_000_000)) as i64, 0)
            }
        },
    };
    match pair {
        Some((s, n)) => Some(Instant { secs: s, nanos: n }),
        None => None,
    }
}

/// Midnight UTC of the day that lies `days` days from the epoch, where the
/// calendar has that day.
pub fn instant_of_days(days: i32) -> (r: Option<Instant>)
    ensures
        r == if representable_seconds(days * 86_400) {
            Some(Instant { secs: (days * 86_400) as i64, nanos: 0 })
        } else {
            None
        },
{
    match from_epoch(days as i64 * 86_400, 0) {
        Some((s, n)) => Some(Instant { secs: s, nanos: n }),
        None => None,
    }
}

} // verus!
