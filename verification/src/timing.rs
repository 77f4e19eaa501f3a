use vstd::prelude::*;

verus! {

/// A moment in UTC: whole seconds since 1970-01-01T00:00:00Z, and the nanoseconds
/// past that second (1_000_000_000 or more only inside a leap second).
#[derive(Clone, Copy, Debug, PartialEq, Eq, Structural)]
pub struct Instant {
    pub seconds: i64,
    pub nanos: u32,
}

/// A signed length of time, as chrono's `TimeDelta` gives it out: its whole seconds,
/// rounded toward zero, and the nanoseconds that remain, of the same sign.
#[derive(Clone, Copy, Debug, PartialEq, Eq, Structural)]
pub struct Span {
    pub seconds: i64,
    pub nanos: i32,
}

/// The most days that chrono's `TimeDelta::days` accepts either way.
pub const MAX_DAYS: i64 = 106_751_991_167;

/// The number of seconds in a day.
pub const SECONDS_PER_DAY: i64 = 86_400;

/// The length of `s` in nanoseconds.
pub open spec fn span_nanos(s: Span) -> int {
    s.seconds * 1_000_000_000 + s.nanos
}

/// The moment that `text` denotes, as chrono's `DateTime::parse_from_rfc3339` reads
/// it, where chrono accepts the text.
pub uninterp spec fn rfc3339_instant(text: Seq<char>) -> Option<Instant>;

/// The earliest whole second that chrono's `DateTime<Utc>` holds (January 1, 262144 BCE).
pub const MIN_TIMESTAMP: i64 = -8_334_601_228_800;

/// The latest whole second that chrono's `DateTime<Utc>` holds (December 31, 262142 CE,
/// 23:59:59).
pub const MAX_TIMESTAMP: i64 = 8_210_266_876_799;

/// Whether chrono can hold `i` as a `DateTime<Utc>`: its second lies in chrono's range,
/// and nanoseconds of a billion or more, which mark a leap second, come only in the last
/// second of a minute.
pub open spec fn representable(i: Instant) -> bool {
    &&& MIN_TIMESTAMP <= i.seconds <= MAX_TIMESTAMP
    &&& i.nanos < 2_000_000_000
    &&& i.nanos >= 1_000_000_000 ==> i.seconds % 60 == 59
}

/// The time from `earlier` to `later` in nanoseconds, as chrono subtracts two moments:
/// the difference of their seconds and nanoseconds, where a leap second of the one moment
/// counts as a further second once the other moment lies later in its day.
pub open spec fn chrono_span_nanos(later: Instant, earlier: Instant) -> int {
    let tl = later.seconds % 86_400;
    let te = earlier.seconds % 86_400;
    let adjust: int = if tl > te && earlier.nanos >= 1_000_000_000 {
        1
    } else if tl < te && later.nanos >= 1_000_000_000 {
        -1
    } else {
        0
    };
    (later.seconds - earlier.seconds + adjust) * 1_000_000_000 + later.nanos - earlier.nanos
}

/// Whether `s` is as `TimeDelta::num_seconds` and `TimeDelta::subsec_nanos` give a span
/// out: the nanoseconds below a second and of the sign of the seconds.
pub open spec fn normalized(s: Span) -> bool {
    &&& -1_000_000_000 < s.nanos < 1_000_000_000
    &&& s.seconds > 0 ==> s.nanos >= 0
    &&& s.seconds < 0 ==> s.nanos <= 0
}

/// Reads an RFC 3339 date and time.
///
/// Trusted: chrono's `DateTime::parse_from_rfc3339`, then `to_utc`, `timestamp` and
/// `timestamp_subsec_nanos`. The result is named, not described: it depends on the
/// text alone. Any `DateTime<Utc>` is representable: chrono documents that
/// `DateTime::from_timestamp` gives it back from these two numbers.
#[verifier::external_body]
pub(crate) fn parse_rfc3339(text: &str) -> (r: Option<Instant>)
    ensures
        r == rfc3339_instant(text@),
        r matches Some(i) ==> representable(i),
{
    match chrono::DateTime::parse_from_rfc3339(text) {
        Ok(t) => {
            let u = t.to_utc();
            Some(Instant { seconds: u.timestamp(), nanos: u.timestamp_subsec_nanos() })
        },
        Err(_) => None,
    }
}

/// The current moment.
///
/// Trusted: chrono's `Utc::now`, which reads the system clock and builds the moment
/// from the whole seconds and sub-second nanoseconds of the time since 1970, so that
/// it is never inside a leap second and, having been built, is representable. Which
/// moment comes back is not stated.
#[verifier::external_body]
pub(crate) fn now() -> (r: Instant)
    ensures
        r.nanos < 1_000_000_000,
        representable(r),
{
    let t = chrono::Utc::now();
    Instant { seconds: t.timestamp(), nanos: t.timestamp_subsec_nanos() }
}

/// The time from `earlier` to `later`.
///
/// Trusted: chrono's `DateTime::from_timestamp` for both moments, then the subtraction
/// of the two `DateTime<Utc>` values, read out by `TimeDelta::num_seconds` and
/// `TimeDelta::subsec_nanos`. `from_timestamp` succeeds exactly on representable moments;
/// the subtraction (`NaiveDateTime::signed_duration_since`: days apart, then seconds of the
/// day with chrono's leap-second adjustment, then nanoseconds) gives `chrono_span_nanos`.
#[verifier::external_body]
pub(crate) fn elapsed(later: Instant, earlier: Instant) -> (r: Option<Span>)
    ensures
        r is Some == (representable(later) && representable(earlier)),
        r matches Some(d) ==> span_nanos(d) == chrono_span_nanos(later, earlier) && normalized(d),
{
    let a = chrono::DateTime::from_timestamp(later.seconds, later.nanos);
    let b = chrono::DateTime::from_timestamp(earlier.seconds, earlier.nanos);
    match (a, b) {
        (Some(a), Some(b)) => {
            let d = a - b;
            Some(Span { seconds: d.num_seconds(), nanos: d.subsec_nanos() })
        },
        _ => None,
    }
}

/// A span of `count` days.
///
/// Trusted: chrono's `TimeDelta::days`, which is `count * 86400` seconds and panics
/// beyond `MAX_DAYS` days either way; its `num_seconds` and `subsec_nanos` then give
/// back those seconds and zero.
#[verifier::external_body]
pub(crate) fn days(count: i64) -> (r: Span)
    requires
        -MAX_DAYS <= count <= MAX_DAYS,
    ensures
        r.seconds == count * SECONDS_PER_DAY,
        r.nanos == 0,
{
    let d = chrono::TimeDelta::days(count);
    Span { seconds: d.num_seconds(), nanos: d.subsec_nanos() }
}

/// Whether `a` is longer than `b`, as `TimeDelta`'s ordering compares them.
pub fn longer_than(a: Span, b: Span) -> (r: bool)
    ensures
        r == (span_nanos(a) > span_nanos(b)),
{
    let x = (a.seconds as i128) * 1_000_000_000i128 + (a.nanos as i128);
    let y = (b.seconds as i128) * 1_000_000_000i128 + (b.nanos as i128);
    x > y
}

/// Whether more than `days` days lie between `since` and `now`.
pub open spec fn older_than(now: Instant, since: Instant, days: int) -> bool {
    &&& representable(now)
    &&& representable(since)
    &&& chrono_span_nanos(now, since) > days * SECONDS_PER_DAY * 1_000_000_000
}

/// Whether more than `inactive_days` days lie between `since` and `now`, as chrono
/// measures the time between them.
pub fn is_older_than(now: Instant, since: Instant, inactive_days: i64) -> (r: bool)
    requires
        -MAX_DAYS <= inactive_days <= MAX_DAYS,
    ensures
        r == older_than(now, since, inactive_days as int),
{
    let limit = days(inactive_days);
    match elapsed(now, since) {
        Some(d) => longer_than(d, limit),
        None => false,
    }
}

} // verus!
